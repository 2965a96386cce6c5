//! What is said to the app-server, and what is made of what it says.
use vstd::prelude::*;

use crate::error::{error_text, ErrorView};
use crate::json::{json_reading, json_rendering, JsonView};
use crate::laws::payloads::{lemma_first_of_two_places, without_text};
use crate::laws::values::{holds, lacks, lemma_member, lemma_path};
use crate::payload::{graphql_arguments, has_summary, summary, token_usage, usage_fits};
use crate::protocol::{
    initialize_request, notification_message, request_message, stdout_message, thread_request,
    tool_reply, turn_request, EmissionView, IncomingMessageView, StepView, VerdictView,
};
use crate::session::{
    begun_turn, can_hear, can_react, hears_answer, opened_thread, reaction, request_reaction,
    startup_step, turn_reaction, HeardView, SessionView, StartupActionView, StartupEventView,
    StartupPhase,
};
use crate::text::{trimmed, utf8_lossy};
use crate::time::Timestamp;
use crate::types::EffectiveConfigView;

verus! {

// ---------------------------------------------------------------------------
// Requests of the app-server
// ---------------------------------------------------------------------------

/// The message is about these parameters, or about null where it has none.
pub open spec fn is_about(value: JsonView, params: JsonView) -> bool {
    holds(value, "params"@, params) || (lacks(value, "params"@) && params is Null)
}

/// The step reports the event with this message, and neither tokens nor rate limits.
pub open spec fn reports(
    step: StepView,
    event: Seq<char>,
    message: Option<Seq<char>>,
    turn_count: Option<u32>,
) -> bool {
    step is Emit && step->Emit_0.event == event && step->Emit_0.message == message
        && step->Emit_0.turn_count == turn_count && step->Emit_0.absolute_tokens is None
        && step->Emit_0.rate_limits is None
}

proof fn lemma_methods_differ()
    ensures
        "item/tool/call"@ != "item/commandExecution/requestApproval"@,
        "item/tool/call"@ != "execCommandApproval"@,
        "item/tool/call"@ != "item/fileChange/requestApproval"@,
        "item/tool/call"@ != "applyPatchApproval"@,
        "item/tool/requestUserInput"@ != "item/tool/call"@,
        "item/tool/requestUserInput"@ != "item/commandExecution/requestApproval"@,
        "item/tool/requestUserInput"@ != "execCommandApproval"@,
        "item/tool/requestUserInput"@ != "item/fileChange/requestApproval"@,
        "item/tool/requestUserInput"@ != "applyPatchApproval"@,
        "mcpServer/elicitation/request"@ != "item/tool/call"@,
        "mcpServer/elicitation/request"@ != "item/commandExecution/requestApproval"@,
        "mcpServer/elicitation/request"@ != "execCommandApproval"@,
        "mcpServer/elicitation/request"@ != "item/fileChange/requestApproval"@,
        "mcpServer/elicitation/request"@ != "applyPatchApproval"@,
{
    reveal_strlit("item/tool/requestUserInput");
    reveal_strlit("mcpServer/elicitation/request");
    reveal_strlit("item/commandExecution/requestApproval");
    reveal_strlit("execCommandApproval");
    reveal_strlit("item/fileChange/requestApproval");
    reveal_strlit("applyPatchApproval");
    reveal_strlit("item/tool/call");
    assert("item/tool/requestUserInput"@.len() == 26);
    assert("mcpServer/elicitation/request"@.len() == 29);
    assert("item/commandExecution/requestApproval"@.len() == 37);
    assert("execCommandApproval"@.len() == 19);
    assert("item/fileChange/requestApproval"@.len() == 31);
    assert("applyPatchApproval"@.len() == 18);
    assert("item/tool/call"@.len() == 14);
}

proof fn lemma_keys_differ()
    ensures
        "id"@ != "result"@,
        "id"@ != "error"@,
        "id"@ != "method"@,
        "id"@ != "params"@,
        "method"@ != "params"@,
        "code"@ != "message"@,
        "success"@ != "contentItems"@,
        "type"@ != "text"@,
        "clientInfo"@ != "capabilities"@,
        "name"@ != "version"@,
{
    reveal_strlit("id");
    reveal_strlit("result");
    reveal_strlit("error");
    reveal_strlit("method");
    reveal_strlit("params");
    reveal_strlit("code");
    reveal_strlit("message");
    reveal_strlit("success");
    reveal_strlit("contentItems");
    reveal_strlit("type");
    reveal_strlit("text");
    reveal_strlit("clientInfo");
    reveal_strlit("capabilities");
    reveal_strlit("name");
    reveal_strlit("version");
    assert("id"@.len() == 2);
    assert("result"@.len() == 6);
    assert("error"@.len() == 5);
    assert("method"@.len() == 6);
    assert("params"@.len() == 6);
    assert("code"@.len() == 4);
    assert("message"@.len() == 7);
    assert("success"@.len() == 7);
    assert("contentItems"@.len() == 12);
    assert("type"@.len() == 4);
    assert("text"@.len() == 4);
    assert("clientInfo"@.len() == 10);
    assert("capabilities"@.len() == 12);
    assert("name"@.len() == 4);
    assert("version"@.len() == 7);
    assert("type"@[1] != "text"@[1]);
    assert("method"@[0] != "params"@[0]);
}

/// The value is an object of these two members alone.
pub open spec fn is_pair(
    value: JsonView,
    key: Seq<char>,
    member: JsonView,
    other: Seq<char>,
    rest: JsonView,
) -> bool {
    &&& value is Object
    &&& value->Object_0.len() == 2
    &&& holds(value, key, member)
    &&& holds(value, other, rest)
}

proof fn lemma_pair(key: Seq<char>, member: JsonView, other: Seq<char>, rest: JsonView)
    requires
        key != other,
    ensures
        is_pair(JsonView::Object(seq![(key, member), (other, rest)]), key, member, other, rest),
{
    let members = seq![(key, member), (other, rest)];
    assert(members[0] == (key, member));
    assert(members[1] == (other, rest));
    assert(holds(JsonView::Object(members), key, member));
    assert(holds(JsonView::Object(members), other, rest));
}

/// Each of the four requests for approval is answered under its id with the decision to accept it for the
/// session, and reported; the conversation goes on.
pub proof fn lemma_approval(
    value: JsonView,
    method: Seq<char>,
    id: JsonView,
    params: JsonView,
    turn_count: Option<u32>,
)
    requires
        holds(value, "method"@, JsonView::String(method)),
        holds(value, "id"@, id),
        is_about(value, params),
        method == "item/commandExecution/requestApproval"@ || method == "execCommandApproval"@ || method
            == "item/fileChange/requestApproval"@ || method == "applyPatchApproval"@,
    ensures
        ({
            let r = reaction(value, turn_count);
            let answer = r.steps[0]->Write_0;
            &&& r.verdict is Continue
            &&& r.steps.len() == 2
            &&& r.steps[0] is Write
            &&& is_pair(
                answer,
                "id"@,
                id,
                "result"@,
                JsonView::Object(seq![("decision"@, JsonView::String("acceptForSession"@))]),
            )
            &&& reports(r.steps[1], "approval_auto_approved"@, summary(params), turn_count)
        }),
{
    lemma_member(value, "method"@);
    lemma_member(value, "id"@);
    lemma_member(value, "params"@);
    lemma_keys_differ();
    lemma_pair(
        "id"@,
        id,
        "result"@,
        JsonView::Object(seq![("decision"@, JsonView::String("acceptForSession"@))]),
    );
}

/// Each of the two requests for input of a user is refused under its id, reported, and ends the turn with
/// a failure.
pub proof fn lemma_input(
    value: JsonView,
    method: Seq<char>,
    id: JsonView,
    params: JsonView,
    turn_count: Option<u32>,
)
    requires
        holds(value, "method"@, JsonView::String(method)),
        holds(value, "id"@, id),
        is_about(value, params),
        method == "item/tool/requestUserInput"@ || method == "mcpServer/elicitation/request"@,
    ensures
        ({
            let r = reaction(value, turn_count);
            &&& r.verdict == VerdictView::Failed(ErrorView::TurnInputRequired)
            &&& r.steps.len() == 2
            &&& r.steps[0] is Write
            &&& is_pair(
                r.steps[0]->Write_0,
                "id"@,
                id,
                "error"@,
                JsonView::Object(
                    seq![
                        ("code"@, JsonView::NegInt((-32000) as i64)),
                        ("message"@, JsonView::String("turn_input_required"@)),
                    ],
                ),
            )
            &&& reports(r.steps[1], "turn_input_required"@, summary(params), turn_count)
        }),
{
    lemma_member(value, "method"@);
    lemma_member(value, "id"@);
    lemma_member(value, "params"@);
    lemma_keys_differ();
    lemma_methods_differ();
    lemma_pair(
        "id"@,
        id,
        "error"@,
        JsonView::Object(
            seq![
                ("code"@, JsonView::NegInt((-32000) as i64)),
                ("message"@, JsonView::String("turn_input_required"@)),
            ],
        ),
    );
}

/// Any other request but a call of a tool is refused under its id, by name, and the conversation goes on.
pub proof fn lemma_unknown_request(
    value: JsonView,
    method: Seq<char>,
    id: JsonView,
    turn_count: Option<u32>,
)
    requires
        holds(value, "method"@, JsonView::String(method)),
        holds(value, "id"@, id),
        method != "item/commandExecution/requestApproval"@,
        method != "execCommandApproval"@,
        method != "item/fileChange/requestApproval"@,
        method != "applyPatchApproval"@,
        method != "item/tool/call"@,
        method != "item/tool/requestUserInput"@,
        method != "mcpServer/elicitation/request"@,
    ensures
        ({
            let r = reaction(value, turn_count);
            &&& r.verdict is Continue
            &&& r.steps.len() == 1
            &&& r.steps[0] is Write
            &&& is_pair(
                r.steps[0]->Write_0,
                "id"@,
                id,
                "error"@,
                JsonView::Object(
                    seq![
                        ("code"@, JsonView::NegInt((-32001) as i64)),
                        ("message"@, JsonView::String("unsupported request: "@ + method)),
                    ],
                ),
            )
        }),
{
    lemma_member(value, "method"@);
    lemma_member(value, "id"@);
    lemma_keys_differ();
    lemma_pair(
        "id"@,
        id,
        "error"@,
        JsonView::Object(
            seq![
                ("code"@, JsonView::NegInt((-32001) as i64)),
                ("message"@, JsonView::String("unsupported request: "@ + method)),
            ],
        ),
    );
}

/// The value is the result of a tool: whether it succeeded, and one text.
pub open spec fn is_tool_result(value: JsonView, success: bool, text: Seq<char>) -> bool {
    exists|item: JsonView|
        {
            &&& #[trigger] is_pair(
                item,
                "type"@,
                JsonView::String("inputText"@),
                "text"@,
                JsonView::String(text),
            )
            &&& is_pair(
                value,
                "success"@,
                JsonView::Bool(success),
                "contentItems"@,
                JsonView::Array(seq![item]),
            )
        }
}

/// The value answers the request with this id with the result of a tool.
pub open spec fn is_tool_answer(value: JsonView, id: JsonView, success: bool, text: Seq<char>) -> bool {
    exists|result: JsonView| #[trigger]
        is_tool_result(result, success, text) && is_pair(value, "id"@, id, "result"@, result)
}

proof fn lemma_tool_answer(id: JsonView, success: bool, text: Seq<char>)
    ensures
        is_tool_answer(
            crate::protocol::result_reply(id, crate::protocol::tool_result(success, text)),
            id,
            success,
            text,
        ),
{
    lemma_keys_differ();
    let item = JsonView::Object(
        seq![("type"@, JsonView::String("inputText"@)), ("text"@, JsonView::String(text))],
    );
    lemma_pair("type"@, JsonView::String("inputText"@), "text"@, JsonView::String(text));
    lemma_pair(
        "success"@,
        JsonView::Bool(success),
        "contentItems"@,
        JsonView::Array(seq![item]),
    );
    let result = crate::protocol::tool_result(success, text);
    assert(is_tool_result(result, success, text));
    lemma_pair("id"@, id, "result"@, result);
}

/// A call of the GraphQL tool is made as the arguments say, or answered with what is wrong with them; a
/// call of any other tool is reported and answered as unsupported. The conversation goes on.
pub proof fn lemma_tool_call(
    value: JsonView,
    id: JsonView,
    params: JsonView,
    tool: Seq<char>,
    arguments: JsonView,
    turn_count: Option<u32>,
)
    requires
        holds(value, "method"@, JsonView::String("item/tool/call"@)),
        holds(value, "id"@, id),
        is_about(value, params),
        holds(params, "tool"@, JsonView::String(tool)) || (without_text(params, "tool"@) && tool.len()
            == 0),
    ensures
        tool != "linear_graphql"@ ==> {
            let r = reaction(value, turn_count);
            &&& r.verdict is Continue
            &&& r.steps.len() == 2
            &&& reports(
                r.steps[0],
                "unsupported_tool_call"@,
                Some("unsupported tool "@ + tool),
                None,
            )
            &&& r.steps[1] is Write
            &&& is_tool_answer(r.steps[1]->Write_0, id, false, "unsupported_tool_call"@)
        },
        tool == "linear_graphql"@ && (holds(params, "arguments"@, arguments) || lacks(
            params,
            "arguments"@,
        )) ==> {
            let r = reaction(value, turn_count);
            let asked = if lacks(params, "arguments"@) {
                None
            } else {
                Some(arguments)
            };
            match graphql_arguments(asked) {
                Ok((query, variables)) => r.steps.len() == 0 && r.verdict == (VerdictView::CallTool {
                    id,
                    query,
                    variables,
                }),
                Err(error) => {
                    &&& r.verdict is Continue
                    &&& r.steps.len() == 1
                    &&& r.steps[0] is Write
                    &&& is_tool_answer(
                        r.steps[0]->Write_0,
                        id,
                        false,
                        "{\"error\":\""@ + error_text(error) + "\"}"@,
                    )
                },
            }
        },
{
    lemma_member(value, "method"@);
    lemma_member(value, "id"@);
    lemma_member(value, "params"@);
    lemma_member(params, "tool"@);
    lemma_member(params, "arguments"@);
    lemma_methods_differ();
    lemma_tool_answer(id, false, "unsupported_tool_call"@);
    if without_text(params, "tool"@) {
        if let Some(t) = params.member_text("tool"@) {
            assert(holds(params, "tool"@, JsonView::String(t)));
        }
        assert(tool =~= seq![]);
    }
    let asked = if lacks(params, "arguments"@) {
        None
    } else {
        Some(arguments)
    };
    if let Err(error) = graphql_arguments(asked) {
        lemma_tool_answer(id, false, "{\"error\":\""@ + error_text(error) + "\"}"@);
    }
}

/// What the GraphQL tool gave is the answer to the call of it, as a success; what went wrong is told as a
/// failure.
pub proof fn lemma_tool_reply(id: JsonView, body: JsonView, error: ErrorView)
    ensures
        is_tool_answer(tool_reply(id, Ok(body)), id, true, json_rendering(body)),
        is_tool_answer(
            tool_reply(id, Err(error)),
            id,
            false,
            "{\"error\":\""@ + error_text(error) + "\"}"@,
        ),
{
    lemma_tool_answer(id, true, json_rendering(body));
    lemma_tool_answer(id, false, "{\"error\":\""@ + error_text(error) + "\"}"@);
}

// ---------------------------------------------------------------------------
// Notifications of the app-server
// ---------------------------------------------------------------------------

proof fn lemma_notifications_differ()
    ensures
        "turn/failed"@ != "turn/completed"@,
        "turn/cancelled"@ != "turn/completed"@,
        "turn/cancelled"@ != "turn/failed"@,
        "thread/tokenUsage/updated"@ != "turn/completed"@,
        "thread/tokenUsage/updated"@ != "turn/failed"@,
        "thread/tokenUsage/updated"@ != "turn/cancelled"@,
        "account/rateLimits/updated"@ != "turn/completed"@,
        "account/rateLimits/updated"@ != "turn/failed"@,
        "account/rateLimits/updated"@ != "turn/cancelled"@,
        "account/rateLimits/updated"@ != "thread/tokenUsage/updated"@,
{
    reveal_strlit("turn/completed");
    reveal_strlit("turn/failed");
    reveal_strlit("turn/cancelled");
    reveal_strlit("thread/tokenUsage/updated");
    reveal_strlit("account/rateLimits/updated");
    assert("turn/completed"@.len() == 14);
    assert("turn/failed"@.len() == 11);
    assert("turn/cancelled"@.len() == 14);
    assert("thread/tokenUsage/updated"@.len() == 25);
    assert("account/rateLimits/updated"@.len() == 26);
    assert("turn/cancelled"@[6] != "turn/completed"@[6]);
}

/// A notification is reported once: the end of a turn, its failure and its cancellation by those names
/// and with what they make of the turn, tokens and rate limits with their numbers, and all else as it is.
pub proof fn lemma_notification(
    value: JsonView,
    method: Seq<char>,
    params: JsonView,
    limits: JsonView,
    turn_count: Option<u32>,
)
    requires
        holds(value, "method"@, JsonView::String(method)),
        lacks(value, "id"@),
        is_about(value, params),
    ensures
        ({
            let r = reaction(value, turn_count);
            let told = r.steps[0]->Emit_0;
            &&& r.steps.len() == 1
            &&& r.steps[0] is Emit
            &&& told.turn_count == turn_count
            &&& method == "turn/completed"@ ==> told.event == "turn_completed"@ && told.message
                == summary(params) && told.absolute_tokens == token_usage(params)
                && told.rate_limits is None && r.verdict is Completed
            &&& method == "turn/failed"@ ==> told.event == "turn_failed"@ && told.message == summary(
                params,
            ) && told.absolute_tokens == token_usage(params) && told.rate_limits is None && r.verdict
                == VerdictView::Failed(
                ErrorView::TurnFailed(
                    if summary(params) is Some {
                        summary(params).unwrap()
                    } else {
                        "turn failed"@
                    },
                ),
            )
            &&& method == "turn/cancelled"@ ==> told.event == "turn_cancelled"@ && told.message
                == summary(params) && told.absolute_tokens is None && told.rate_limits is None
                && r.verdict == VerdictView::Failed(ErrorView::TurnCancelled)
            &&& method == "thread/tokenUsage/updated"@ ==> told.event == "notification"@ && told.message
                == summary(params) && told.absolute_tokens == token_usage(params)
                && told.rate_limits is None && r.verdict is Continue
            &&& method == "account/rateLimits/updated"@ ==> {
                &&& told.event == "notification"@
                &&& told.message == summary(params)
                &&& told.absolute_tokens is None
                &&& holds(params, "rateLimits"@, limits) ==> told.rate_limits == Some(limits)
                &&& lacks(params, "rateLimits"@) ==> told.rate_limits == Some(params)
                &&& r.verdict is Continue
            }
            &&& method != "turn/completed"@ && method != "turn/failed"@ && method != "turn/cancelled"@
                && method != "thread/tokenUsage/updated"@ && method != "account/rateLimits/updated"@
                ==> {
                &&& told.event == "other_message"@
                &&& summary(params) is Some ==> told.message == summary(params)
                &&& summary(params) is None ==> told.message == Some(json_rendering(value))
                &&& told.absolute_tokens is None
                &&& told.rate_limits is None
                &&& r.verdict is Continue
            }
        }),
{
    lemma_member(value, "method"@);
    lemma_member(value, "id"@);
    lemma_member(value, "params"@);
    lemma_member(params, "rateLimits"@);
    lemma_notifications_differ();
}

/// A message without a method is passed over, and a request whose method is no text fails.
pub proof fn lemma_nameless_message(value: JsonView, method: JsonView, turn_count: Option<u32>)
    ensures
        lacks(value, "method"@) ==> reaction(value, turn_count).steps.len() == 0 && reaction(
            value,
            turn_count,
        ).verdict is Continue,
        holds(value, "method"@, method) && !(method is String) && lacks(value, "id"@) ==> reaction(
            value,
            turn_count,
        ).steps.len() == 0 && reaction(value, turn_count).verdict is Continue,
        holds(value, "method"@, method) && !(method is String) && !lacks(value, "id"@) ==> reaction(
            value,
            turn_count,
        ).steps.len() == 0 && reaction(value, turn_count).verdict == VerdictView::Failed(
            ErrorView::ResponseError("request missing method"@),
        ),
{
    lemma_member(value, "method"@);
    lemma_member(value, "id"@);
}

// ---------------------------------------------------------------------------
// Listening
// ---------------------------------------------------------------------------

/// A line that is longer than allowed is not read. Any other is a value, if it reads as one without the
/// space around it, and otherwise malformed.
pub proof fn lemma_line(bytes: Seq<u8>)
    ensures
        bytes.len() > 10_485_760 ==> stdout_message(bytes) == IncomingMessageView::StdoutMalformed(
            "stdout line exceeded 10MB"@,
        ),
        bytes.len() <= 10_485_760 ==> match json_reading(trimmed(utf8_lossy(bytes))) {
            Ok(value) => stdout_message(bytes) == IncomingMessageView::StdoutJson(value),
            Err(_) => stdout_message(bytes) == IncomingMessageView::StdoutMalformed(
                trimmed(utf8_lossy(bytes)),
            ),
        },
{
}

/// During a turn a message has its own reaction, and a line that is none is reported. The turn fails with
/// the app-server, in silence for too long, and when it is cancelled, where the app-server is killed.
pub proof fn lemma_hearing_in_a_turn(
    value: JsonView,
    line: Seq<char>,
    exited: bool,
    turn_count: u32,
    error: Seq<char>,
)
    ensures
        turn_reaction(
            HeardView::Message { message: IncomingMessageView::StdoutJson(value), exited },
            turn_count,
        ) == reaction(value, Some(turn_count)),
        ({
            let r = turn_reaction(
                HeardView::Message { message: IncomingMessageView::StdoutMalformed(line), exited },
                turn_count,
            );
            r.verdict is Continue && r.steps.len() == 1 && reports(
                r.steps[0],
                "malformed"@,
                Some(line),
                Some(turn_count),
            )
        }),
        ({
            let r = turn_reaction(
                HeardView::Message { message: IncomingMessageView::Stderr(line), exited },
                turn_count,
            );
            r.verdict is Continue && r.steps.len() == 1 && reports(
                r.steps[0],
                "notification"@,
                Some(line),
                Some(turn_count),
            )
        }),
        forall|message: IncomingMessageView|
            message is StdoutClosed || message is StderrClosed ==> {
                let r = #[trigger] turn_reaction(HeardView::Message { message, exited }, turn_count);
                &&& r.steps.len() == 0
                &&& exited ==> r.verdict == VerdictView::Failed(ErrorView::PortExit)
                &&& !exited ==> r.verdict is Continue
            },
        turn_reaction(HeardView::WaitFailed(error), turn_count).steps.len() == 0,
        turn_reaction(HeardView::WaitFailed(error), turn_count).verdict == VerdictView::Failed(
            ErrorView::Io(error),
        ),
        turn_reaction(HeardView::Deadline, turn_count).steps.len() == 0,
        turn_reaction(HeardView::Deadline, turn_count).verdict == VerdictView::Failed(
            ErrorView::TurnTimeout,
        ),
        turn_reaction(HeardView::Disconnected, turn_count).steps.len() == 0,
        turn_reaction(HeardView::Disconnected, turn_count).verdict == VerdictView::Failed(
            ErrorView::PortExit,
        ),
        turn_reaction(HeardView::Cancelled, turn_count).steps == seq![StepView::Kill],
        turn_reaction(HeardView::Cancelled, turn_count).verdict == VerdictView::Failed(
            ErrorView::TurnCancelled,
        ),
{
}

/// While an answer is awaited, the message with the id of the request is the answer: its result, or else
/// what it says is wrong. Any other message has its own reaction, but a turn that ends is no answer.
pub proof fn lemma_hearing_in_a_request(
    value: JsonView,
    result: JsonView,
    error: JsonView,
    exited: bool,
    id: u64,
)
    ensures
        ({
            let r = request_reaction(
                HeardView::Message { message: IncomingMessageView::StdoutJson(value), exited },
                id,
            );
            let own = reaction(value, None);
            &&& holds(value, "id"@, JsonView::PosInt(id)) ==> {
                &&& r.steps.len() == 0
                &&& holds(value, "result"@, result) ==> r.verdict == VerdictView::Answered(result)
                &&& lacks(value, "result"@) && holds(value, "error"@, error) ==> r.verdict
                    == VerdictView::Failed(ErrorView::ResponseError(json_rendering(error)))
                &&& lacks(value, "result"@) && lacks(value, "error"@) ==> r.verdict
                    == VerdictView::Failed(
                    ErrorView::ResponseError(json_rendering(JsonView::String("missing result"@))),
                )
            }
            &&& !holds(value, "id"@, JsonView::PosInt(id)) ==> {
                &&& r.steps == own.steps
                &&& own.verdict is Completed ==> r.verdict is Continue
                &&& !(own.verdict is Completed) ==> r.verdict == own.verdict
            }
        }),
{
    lemma_member(value, "id"@);
    lemma_member(value, "result"@);
    lemma_member(value, "error"@);
}

/// While an answer is awaited, a line that is no message is reported. The request fails with the
/// app-server and in silence for too long; that the worker is to stop is left to the turn.
pub proof fn lemma_other_hearing_in_a_request(line: Seq<char>, exited: bool, id: u64, error: Seq<char>)
    ensures
        ({
            let r = request_reaction(
                HeardView::Message { message: IncomingMessageView::StdoutMalformed(line), exited },
                id,
            );
            r.verdict is Continue && r.steps.len() == 1 && reports(
                r.steps[0],
                "malformed"@,
                Some(line),
                None,
            )
        }),
        ({
            let r = request_reaction(
                HeardView::Message { message: IncomingMessageView::Stderr(line), exited },
                id,
            );
            r.verdict is Continue && r.steps.len() == 1 && reports(
                r.steps[0],
                "notification"@,
                Some(line),
                None,
            )
        }),
        forall|message: IncomingMessageView|
            message is StdoutClosed || message is StderrClosed ==> {
                let r = #[trigger] request_reaction(HeardView::Message { message, exited }, id);
                &&& r.steps.len() == 0
                &&& exited ==> r.verdict == VerdictView::Failed(ErrorView::PortExit)
                &&& !exited ==> r.verdict is Continue
            },
        request_reaction(HeardView::WaitFailed(error), id).steps.len() == 0,
        request_reaction(HeardView::WaitFailed(error), id).verdict == VerdictView::Failed(
            ErrorView::Io(error),
        ),
        request_reaction(HeardView::Deadline, id).steps.len() == 0,
        request_reaction(HeardView::Deadline, id).verdict == VerdictView::Failed(
            ErrorView::ResponseTimeout,
        ),
        request_reaction(HeardView::Disconnected, id).steps.len() == 0,
        request_reaction(HeardView::Disconnected, id).verdict == VerdictView::Failed(
            ErrorView::PortExit,
        ),
        request_reaction(HeardView::Cancelled, id).steps.len() == 0,
        request_reaction(HeardView::Cancelled, id).verdict is Continue,
{
}

/// A message can be taken in unless what it is about has to be told and cannot be cut short, or its tokens
/// have to be counted and leave 64 bits. Neither has to be of an answer, of a call of a tool, and of a
/// request that is not known.
pub proof fn lemma_messages_that_can_be_heard(value: JsonView, method: Seq<char>, params: JsonView)
    requires
        holds(value, "method"@, JsonView::String(method)),
        is_about(value, params),
    ensures
        !lacks(value, "id"@) ==> {
            &&& method == "item/commandExecution/requestApproval"@ || method == "execCommandApproval"@
                || method == "item/fileChange/requestApproval"@ || method == "applyPatchApproval"@
                || method == "item/tool/requestUserInput"@ || method
                == "mcpServer/elicitation/request"@ ==> (can_react(value) <==> has_summary(params))
            &&& method != "item/commandExecution/requestApproval"@ && method
                != "execCommandApproval"@ && method != "item/fileChange/requestApproval"@ && method
                != "applyPatchApproval"@ && method != "item/tool/requestUserInput"@ && method
                != "mcpServer/elicitation/request"@ ==> can_react(value)
        },
        lacks(value, "id"@) ==> {
            &&& method == "turn/completed"@ || method == "turn/failed"@ || method
                == "thread/tokenUsage/updated"@ ==> (can_react(value) <==> has_summary(params)
                && usage_fits(params))
            &&& method != "turn/completed"@ && method != "turn/failed"@ && method
                != "thread/tokenUsage/updated"@ ==> (can_react(value) <==> has_summary(params))
        },
{
    lemma_member(value, "method"@);
    lemma_member(value, "id"@);
    lemma_member(value, "params"@);
}

/// A message without a text for its method can always be taken in, and so can everything that is heard
/// besides messages; and an answer is the message with the number of its request.
pub proof fn lemma_hearing_is_possible(value: JsonView, exited: bool, id: u64, heard: HeardView)
    ensures
        without_text(value, "method"@) ==> can_react(value),
        can_hear(
            HeardView::Message { message: IncomingMessageView::StdoutJson(value), exited },
        ) <==> can_react(value),
        !(heard is Message && heard->message is StdoutJson) ==> can_hear(heard) && !hears_answer(
            heard,
            id,
        ),
        hears_answer(
            HeardView::Message { message: IncomingMessageView::StdoutJson(value), exited },
            id,
        ) <==> holds(value, "id"@, JsonView::PosInt(id)),
{
    lemma_member(value, "method"@);
    lemma_member(value, "id"@);
    if let Some(t) = value.member_text("method"@) {
        assert(holds(value, "method"@, JsonView::String(t)));
    }
}

// ---------------------------------------------------------------------------
// Sessions
// ---------------------------------------------------------------------------

proof fn lemma_places(result: JsonView, outer: Seq<char>, short: Seq<char>, inner: JsonView, s: Seq<char>)
    ensures
        holds(result, outer, inner) && holds(inner, "id"@, JsonView::String(s)) ==> result.at(
            seq![outer, "id"@],
        ) == Some(JsonView::String(s)),
        lacks(result, outer) ==> result.at(seq![outer, "id"@]) is None,
        holds(result, outer, inner) && without_text(inner, "id"@) ==> !(result.at(
            seq![outer, "id"@],
        ) is Some && result.at(seq![outer, "id"@]).unwrap() is String),
        holds(result, short, JsonView::String(s)) ==> result.at(seq![short]) == Some(
            JsonView::String(s),
        ),
        without_text(result, short) ==> !(result.at(seq![short]) is Some && result.at(
            seq![short],
        ).unwrap() is String),
{
    lemma_path(result, outer, inner, seq!["id"@]);
    lemma_path(inner, "id"@, JsonView::String(s), Seq::empty());
    lemma_path(JsonView::String(s), "id"@, JsonView::String(s), Seq::empty());
    lemma_path(result, short, JsonView::String(s), Seq::empty());
    assert(seq![outer] + seq!["id"@] =~= seq![outer, "id"@]);
    assert(seq!["id"@] + Seq::<Seq<char>>::empty() =~= seq!["id"@]);
    assert(seq![short] + Seq::<Seq<char>>::empty() =~= seq![short]);
    lemma_member(inner, "id"@);
    lemma_member(result, short);
    if let Some(found) = inner.member("id"@) {
        lemma_path(result, outer, inner, seq!["id"@]);
        lemma_path(inner, "id"@, found, Seq::empty());
        lemma_path(found, "id"@, found, Seq::empty());
        assert(holds(inner, "id"@, found));
        if let JsonView::String(t) = found {
            assert(holds(inner, "id"@, JsonView::String(t)));
        }
    }
    if let Some(found) = result.member(short) {
        lemma_path(result, short, found, Seq::empty());
        lemma_path(found, short, found, Seq::empty());
        assert(holds(result, short, found));
        if let JsonView::String(t) = found {
            assert(holds(result, short, JsonView::String(t)));
        }
    }
}

/// An answer names the thread that was opened by the id in `thread`, or else in `threadId`, and the turn
/// that was begun by the id in `turn`, or else in `turnId`.
pub proof fn lemma_ids_of_a_session(result: JsonView, inner: JsonView, s: Seq<char>)
    ensures
        holds(result, "thread"@, inner) && holds(inner, "id"@, JsonView::String(s)) ==> opened_thread(
            result,
        ) == Some(s),
        lacks(result, "thread"@) || (holds(result, "thread"@, inner) && without_text(inner, "id"@)) ==> {
            &&& holds(result, "threadId"@, JsonView::String(s)) ==> opened_thread(result) == Some(s)
            &&& without_text(result, "threadId"@) ==> opened_thread(result) is None
        },
        holds(result, "turn"@, inner) && holds(inner, "id"@, JsonView::String(s)) ==> begun_turn(
            result,
        ) == Some(s),
        lacks(result, "turn"@) || (holds(result, "turn"@, inner) && without_text(inner, "id"@)) ==> {
            &&& holds(result, "turnId"@, JsonView::String(s)) ==> begun_turn(result) == Some(s)
            &&& without_text(result, "turnId"@) ==> begun_turn(result) is None
        },
{
    lemma_first_of_two_places(result, seq!["thread"@, "id"@], seq!["threadId"@]);
    lemma_first_of_two_places(result, seq!["turn"@, "id"@], seq!["turnId"@]);
    lemma_places(result, "thread"@, "threadId"@, inner, s);
    lemma_places(result, "turn"@, "turnId"@, inner, s);
}

/// With a turn a session has its id, and is known by thread and turn where both have one; nothing else of
/// it changes. What it reports bears its own names and what is reported, as it is.
pub proof fn lemma_session(session: SessionView, result: JsonView, emission: EmissionView, at: Timestamp)
    ensures
        ({
            let next = session.with_turn(result);
            &&& next.turn_id == begun_turn(result)
            &&& session.thread_id is Some && begun_turn(result) is Some ==> next.session_id == Some(
                session.thread_id.unwrap() + "-"@ + begun_turn(result).unwrap(),
            )
            &&& session.thread_id is None || begun_turn(result) is None ==> next.session_id is None
            &&& next.next_request_id == session.next_request_id
            &&& next.issue_id == session.issue_id
            &&& next.issue_identifier == session.issue_identifier
            &&& next.workspace_path == session.workspace_path
            &&& next.pid == session.pid
            &&& next.thread_id == session.thread_id
        }),
        ({
            let update = session.update(emission, at);
            &&& update.issue_id == session.issue_id
            &&& update.issue_identifier == session.issue_identifier
            &&& update.session_id == session.session_id
            &&& update.thread_id == session.thread_id
            &&& update.turn_id == session.turn_id
            &&& update.pid == session.pid
            &&& update.event == emission.event
            &&& update.message == emission.message
            &&& update.absolute_tokens == emission.absolute_tokens
            &&& update.rate_limits == emission.rate_limits
            &&& update.turn_count == emission.turn_count
            &&& update.at == at
        }),
{
}

/// A session starts with three steps, each after the one before: the app-server has answered, then it is
/// told that the client is ready, then it is asked for a thread in the workspace, and the session is open
/// with that thread. A failure ends the start, and is reported where the app-server could not be told.
pub proof fn lemma_startup(
    config: EffectiveConfigView,
    session: SessionView,
    phase: StartupPhase,
    result: JsonView,
    error: ErrorView,
    event: StartupEventView,
)
    ensures
        startup_step(
            config,
            session,
            StartupPhase::Initializing,
            StartupEventView::Replied(result),
        ) == (
            session,
            StartupPhase::Confirming,
            StartupActionView::Notify {
                method: "initialized"@,
                params: JsonView::Object(Seq::empty()),
            },
        ),
        startup_step(config, session, StartupPhase::Confirming, StartupEventView::Notified) == (
            session,
            StartupPhase::OpeningThread,
            StartupActionView::Request {
                method: "thread/start"@,
                params: thread_request(config, session.workspace_path),
            },
        ),
        ({
            let (next, after, action) = startup_step(
                config,
                session,
                StartupPhase::OpeningThread,
                StartupEventView::Replied(result),
            );
            &&& after == StartupPhase::Open
            &&& action is Ready
            &&& next.thread_id == opened_thread(result)
            &&& next.next_request_id == session.next_request_id
            &&& next.issue_id == session.issue_id
            &&& next.issue_identifier == session.issue_identifier
            &&& next.workspace_path == session.workspace_path
            &&& next.pid == session.pid
            &&& next.turn_id == session.turn_id
            &&& next.session_id == session.session_id
        }),
        phase != StartupPhase::Open && phase != StartupPhase::Failed ==> {
            let (next, after, action) = startup_step(
                config,
                session,
                phase,
                StartupEventView::Failed(error),
            );
            &&& next == session
            &&& after == StartupPhase::Failed
            &&& action is Fail
            &&& action->Fail_error == error
            &&& phase != StartupPhase::Confirming ==> action->Fail_emission is None
            &&& phase == StartupPhase::Confirming ==> action->Fail_emission is Some && reports(
                StepView::Emit(action->Fail_emission.unwrap()),
                "startup_failed"@,
                Some(error_text(error)),
                None,
            )
        },
        phase == StartupPhase::Open || phase == StartupPhase::Failed || (event is Notified && phase
            != StartupPhase::Confirming) || (event is Replied && phase == StartupPhase::Confirming)
            ==> startup_step(config, session, phase, event) == (
            session,
            phase,
            StartupActionView::Wait,
        ),
{
}

// ---------------------------------------------------------------------------
// Messages that are sent
// ---------------------------------------------------------------------------

/// A request names its id, its method and its parameters; a notification the latter two alone.
pub proof fn lemma_messages(id: u64, method: Seq<char>, params: JsonView)
    ensures
        ({
            let message = request_message(id, method, params);
            &&& message is Object && message->Object_0.len() == 3
            &&& holds(message, "id"@, JsonView::PosInt(id))
            &&& holds(message, "method"@, JsonView::String(method))
            &&& holds(message, "params"@, params)
        }),
        is_pair(
            notification_message(method, params),
            "method"@,
            JsonView::String(method),
            "params"@,
            params,
        ),
{
    lemma_keys_differ();
    lemma_pair("method"@, JsonView::String(method), "params"@, params);
    let message = request_message(id, method, params);
    let members = message->Object_0;
    assert(members[0] == ("id"@, JsonView::PosInt(id)));
    assert(members[1] == ("method"@, JsonView::String(method)));
    assert(members[2] == ("params"@, params));
    assert(holds(message, "id"@, JsonView::PosInt(id)));
    assert(holds(message, "method"@, JsonView::String(method)));
    assert(holds(message, "params"@, params));
}

/// The client introduces itself by name and version, and asks for what is experimental.
pub proof fn lemma_introduction(version: Seq<char>)
    ensures
        exists|client: JsonView|
            {
                &&& #[trigger] is_pair(
                    client,
                    "name"@,
                    JsonView::String("symphony"@),
                    "version"@,
                    JsonView::String(version),
                )
                &&& is_pair(
                    initialize_request(version),
                    "clientInfo"@,
                    client,
                    "capabilities"@,
                    JsonView::Object(seq![("experimentalApi"@, JsonView::Bool(true))]),
                )
            },
{
    lemma_keys_differ();
    let client = JsonView::Object(
        seq![("name"@, JsonView::String("symphony"@)), ("version"@, JsonView::String(version))],
    );
    lemma_pair("name"@, JsonView::String("symphony"@), "version"@, JsonView::String(version));
    lemma_pair(
        "clientInfo"@,
        client,
        "capabilities"@,
        JsonView::Object(seq![("experimentalApi"@, JsonView::Bool(true))]),
    );
}

/// A thread is asked for in the workspace, under the policy of approval and in the sandbox that are
/// configured, and with a tool exactly where the tracker is Linear.
pub proof fn lemma_thread_request(config: EffectiveConfigView, workspace_path: Seq<char>)
    ensures
        ({
            let request = thread_request(config, workspace_path);
            &&& holds(request, "approvalPolicy"@, config.codex.approval_policy)
            &&& holds(request, "sandbox"@, config.codex.thread_sandbox)
            &&& holds(request, "cwd"@, JsonView::String(workspace_path))
            &&& holds(request, "serviceName"@, JsonView::String("symphony"@))
            &&& holds(request, "personality"@, JsonView::String("pragmatic"@))
            &&& config.tracker.kind == "linear"@ ==> exists|tool: JsonView|
                {
                    &&& #[trigger] holds(tool, "name"@, JsonView::String("linear_graphql"@))
                    &&& holds(request, "tools"@, JsonView::Array(seq![tool]))
                    &&& holds(
                        request,
                        "config"@,
                        JsonView::Object(seq![("tools"@, JsonView::Array(seq![tool]))]),
                    )
                }
            &&& config.tracker.kind != "linear"@ ==> lacks(request, "tools"@) && lacks(
                request,
                "config"@,
            )
        }),
{
    reveal_strlit("approvalPolicy");
    reveal_strlit("sandbox");
    reveal_strlit("cwd");
    reveal_strlit("serviceName");
    reveal_strlit("personality");
    reveal_strlit("tools");
    reveal_strlit("config");
    reveal_strlit("name");
    reveal_strlit("description");
    reveal_strlit("inputSchema");
    assert("approvalPolicy"@.len() == 14);
    assert("sandbox"@.len() == 7);
    assert("cwd"@.len() == 3);
    assert("serviceName"@.len() == 11);
    assert("personality"@.len() == 11);
    assert("tools"@.len() == 5);
    assert("config"@.len() == 6);
    assert("name"@.len() == 4);
    assert("description"@.len() == 11);
    assert("inputSchema"@.len() == 11);
    assert("serviceName"@[0] == 's' && "personality"@[0] == 'p');
    let request = thread_request(config, workspace_path);
    let members = request->Object_0;
    assert(members[0] == ("approvalPolicy"@, config.codex.approval_policy));
    assert(members[1] == ("sandbox"@, config.codex.thread_sandbox));
    assert(members[2] == ("cwd"@, JsonView::String(workspace_path)));
    assert(members[3] == ("serviceName"@, JsonView::String("symphony"@)));
    assert(members[4] == ("personality"@, JsonView::String("pragmatic"@)));
    let tool = crate::protocol::graphql_tool();
    if config.tracker.kind == "linear"@ {
        assert(members[5] == ("tools"@, JsonView::Array(seq![tool])));
        assert(members[6].0 == "config"@);
        assert(members[6] == (
            "config"@,
            JsonView::Object(seq![("tools"@, JsonView::Array(seq![tool]))]),
        ));
        assert(tool->Object_0[0] == ("name"@, JsonView::String("linear_graphql"@)));
        assert(tool->Object_0[1].0 == "description"@);
        assert(tool->Object_0[2].0 == "inputSchema"@);
        assert(holds(tool, "name"@, JsonView::String("linear_graphql"@)));
    }
}

/// A turn is asked for in the thread and in the workspace, with the prompt as its input, under its title,
/// and under the policies of approval and of the sandbox that are configured.
pub proof fn lemma_turn_request(
    config: EffectiveConfigView,
    workspace_path: Seq<char>,
    thread_id: Seq<char>,
    prompt: Seq<char>,
    title: Seq<char>,
)
    ensures
        ({
            let request = turn_request(config, workspace_path, thread_id, prompt, title);
            &&& holds(request, "threadId"@, JsonView::String(thread_id))
            &&& holds(request, "cwd"@, JsonView::String(workspace_path))
            &&& holds(request, "title"@, JsonView::String(title))
            &&& holds(request, "approvalPolicy"@, config.codex.approval_policy)
            &&& holds(request, "sandboxPolicy"@, config.codex.turn_sandbox_policy)
            &&& holds(request, "personality"@, JsonView::String("pragmatic"@))
            &&& exists|item: JsonView|
                {
                    &&& #[trigger] is_pair(
                        item,
                        "type"@,
                        JsonView::String("text"@),
                        "text"@,
                        JsonView::String(prompt),
                    )
                    &&& holds(request, "input"@, JsonView::Array(seq![item]))
                }
        }),
{
    reveal_strlit("threadId");
    reveal_strlit("input");
    reveal_strlit("cwd");
    reveal_strlit("title");
    reveal_strlit("approvalPolicy");
    reveal_strlit("sandboxPolicy");
    reveal_strlit("personality");
    assert("threadId"@.len() == 8);
    assert("input"@.len() == 5);
    assert("cwd"@.len() == 3);
    assert("title"@.len() == 5);
    assert("approvalPolicy"@.len() == 14);
    assert("sandboxPolicy"@.len() == 13);
    assert("personality"@.len() == 11);
    assert("input"@[0] == 'i' && "title"@[0] == 't');
    lemma_keys_differ();
    let request = turn_request(config, workspace_path, thread_id, prompt, title);
    let members = request->Object_0;
    let item = JsonView::Object(
        seq![("type"@, JsonView::String("text"@)), ("text"@, JsonView::String(prompt))],
    );
    lemma_pair("type"@, JsonView::String("text"@), "text"@, JsonView::String(prompt));
    assert(members[0] == ("threadId"@, JsonView::String(thread_id)));
    assert(members[1] == ("input"@, JsonView::Array(seq![item])));
    assert(members[2] == ("cwd"@, JsonView::String(workspace_path)));
    assert(members[3] == ("title"@, JsonView::String(title)));
    assert(members[4] == ("approvalPolicy"@, config.codex.approval_policy));
    assert(members[5] == ("sandboxPolicy"@, config.codex.turn_sandbox_policy));
    assert(members[6] == ("personality"@, JsonView::String("pragmatic"@)));
}

} // verus!
