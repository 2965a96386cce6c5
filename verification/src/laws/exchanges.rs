//! What is sent and written, and what is read, call by call.
use vstd::prelude::*;

use crate::error::{ErrorView, SymphonyError};
use crate::filling::{filling, lemma_text_without_tags_is_kept, Filling};
use crate::http::{refresh_reply, HttpReply, RefreshOutcome};
use crate::json::{json_reading, Json, JsonView};
use crate::laws::overview::lemma_refresh_as_json;
use crate::laws::values::{holds, lacks, lemma_member};
use crate::lifecycle::{WorkspacePreparation, WorkspaceRemoval};
use crate::orchestrator::{offered, Effect, OrchestratorState};
use crate::path::{path_join, same_path};
use crate::payload::{has_summary, summary};
use crate::protocol::{
    read_stderr_line, read_stdout_line, request_message, turn_request, Emission, HeardLine,
    IncomingMessageView, Reaction,
};
use crate::rendering::is_settled;
use crate::session::{
    begin_startup, begun_turn, can_hear, hears_answer, opened_thread, request_reaction,
    try_hear_in_request, try_hear_in_turn, turn_reaction, Heard, Session, StartupAction,
};
use crate::template::opens_tag;
use crate::text::{trimmed, utf8_lossy};
use crate::time::{chrono_rfc3339, chrono_rfc3339_zulu, Timestamp};
use crate::tracker::{
    authorization, graphql_payload, issue_state_variables, read_graphql_response, select_tracker,
    TrackerKind,
};
use crate::types::{EffectiveConfig, Issue};
use crate::workflow::{
    is_relevant_change, liquid_refusal, liquid_rendering, prompt_source, prompt_values,
    rendered_prompt, PromptRenderer,
};
use crate::workspace::{
    extend_session_log, has_hook_message, sent_log_line, session_log_header, workspace_key,
    workspace_path, CurrentDir, HookRun, PathKind, WorkspaceManager,
};

verus! {

// ---------------------------------------------------------------------------
// The tracker
// ---------------------------------------------------------------------------

/// Linear is the only tracker that is known; any other is told by its name.
pub proof fn lemma_known_trackers(config: EffectiveConfig, r: Result<TrackerKind, SymphonyError>)
    requires
        call_ensures(select_tracker, (&config,), r),
    ensures
        r is Ok <==> config.tracker.kind@ == "linear"@,
        r is Err ==> r->Err_0@ == ErrorView::UnsupportedTrackerKind(config.tracker.kind@),
{
}

/// A query is sent with its variables, issues are asked for by their ids in their order, and the key is
/// sent without the space around it.
pub proof fn lemma_queries(
    query: &str,
    variables: Json,
    payload: Json,
    ids: Vec<String>,
    asked: Json,
    config: EffectiveConfig,
    key: String,
)
    ensures
        call_ensures(graphql_payload, (query, variables), payload) ==> {
            &&& payload@ is Object
            &&& payload@->Object_0.len() == 2
            &&& holds(payload@, "query"@, JsonView::String(query@))
            &&& holds(payload@, "variables"@, variables@)
        },
        call_ensures(issue_state_variables, (&ids,), asked) ==> exists|items: Seq<JsonView>|
            {
                &&& #[trigger] holds(asked@, "ids"@, JsonView::Array(items))
                &&& items.len() == ids@.len()
                &&& forall|i: int|
                    0 <= i < ids@.len() ==> #[trigger] items[i] == JsonView::String(ids@[i]@)
            },
        call_ensures(authorization, (&config,), key) ==> key@ == trimmed(config.tracker.api_key@),
{
    reveal_strlit("query");
    reveal_strlit("variables");
    assert("query"@.len() == 5);
    assert("variables"@.len() == 9);
    if call_ensures(graphql_payload, (query, variables), payload) {
        let members = payload@->Object_0;
        assert(members[0] == ("query"@, JsonView::String(query@)));
        assert(members[1] == ("variables"@, variables@));
    }
    if call_ensures(issue_state_variables, (&ids,), asked) {
        let items = ids.deep_view().map_values(|s: Seq<char>| JsonView::String(s));
        assert(asked@->Object_0[0] == ("ids"@, JsonView::Array(items)));
        assert(holds(asked@, "ids"@, JsonView::Array(items)));
        assert forall|i: int| 0 <= i < ids@.len() implies #[trigger] items[i] == JsonView::String(
            ids@[i]@,
        ) by {
            assert(ids.deep_view()[i] == ids@[i]@);
        }
    }
}

/// An answer is taken if and only if its status says that it was served, its body reads as JSON, and it
/// tells of no errors.
pub proof fn lemma_answer_of_the_tracker(status: u16, body: String, r: Result<Json, SymphonyError>)
    requires
        call_ensures(read_graphql_response, (status, body), r),
    ensures
        status != 200 ==> r is Err && r->Err_0@ == (ErrorView::LinearApiStatus {
            status,
            body: body@,
        }),
        status == 200 ==> match json_reading(body@) {
            Err(message) => r is Err && r->Err_0@ == ErrorView::Json(message),
            Ok(value) => {
                &&& r is Ok <==> lacks(value, "errors"@)
                &&& r is Ok ==> r->Ok_0@ == value
                &&& r is Err ==> r->Err_0@ is LinearGraphqlErrors
            },
        },
{
    if let Ok(value) = json_reading(body@) {
        lemma_member(value, "errors"@);
    }
}

// ---------------------------------------------------------------------------
// Clients
// ---------------------------------------------------------------------------

/// A request for a refresh is taken in unless the scheduler is gone. It counts as joined with another
/// where the scheduler says so, and where it says nothing.
pub proof fn lemma_answer_to_a_refresh(outcome: RefreshOutcome, at: Timestamp, reply: HttpReply)
    requires
        call_ensures(refresh_reply, (outcome, at), reply),
    ensures
        outcome is Closed ==> reply.status == 503 && !lacks(reply.body@, "error"@),
        !(outcome is Closed) ==> {
            &&& reply.status == 202
            &&& holds(reply.body@, "queued"@, JsonView::Bool(true))
            &&& holds(
                reply.body@,
                "requested_at"@,
                JsonView::String(chrono_rfc3339_zulu(at)),
            )
            &&& outcome is Unanswered ==> holds(reply.body@, "coalesced"@, JsonView::Bool(true))
            &&& outcome matches RefreshOutcome::Answered(joined) ==> holds(
                reply.body@,
                "coalesced"@,
                JsonView::Bool(joined),
            )
        },
{
    lemma_refresh_as_json(true, at);
    if let RefreshOutcome::Answered(joined) = outcome {
        lemma_refresh_as_json(joined, at);
    }
    if outcome is Closed {
        assert(reply.body@->Object_0[0].0 == "error"@);
    }
}

// ---------------------------------------------------------------------------
// Sessions
// ---------------------------------------------------------------------------

/// A session begins without a thread and a turn, and each of its requests has a number of its own.
pub proof fn lemma_requests_of_a_session(
    issue_id: &str,
    identifier: &str,
    path: &str,
    pid: Option<String>,
    begun: Session,
    session: &mut Session,
    method: &str,
    params: Json,
    r: (u64, Json),
)
    ensures
        call_ensures(Session::new, (issue_id, identifier, path, pid), begun) ==> {
            &&& begun.next_request_id == 1
            &&& begun.issue_id@ == issue_id@
            &&& begun.issue_identifier@ == identifier@
            &&& begun.workspace_path@ == path@
            &&& pid is Some <==> begun.pid is Some
            &&& pid is Some ==> begun.pid.unwrap()@ == pid.unwrap()@
            &&& begun.thread_id is None
            &&& begun.turn_id is None
            &&& begun.session_id is None
        },
        old(session).next_request_id < u64::MAX && call_ensures(
            Session::next_request,
            (session, method, params),
            r,
        ) ==> {
            &&& r.0 == old(session).next_request_id
            &&& final(session).next_request_id == old(session).next_request_id + 1
            &&& r.1@ == request_message(old(session).next_request_id, method@, params@)
            &&& final(session)@.thread_id == old(session)@.thread_id
            &&& final(session)@.turn_id == old(session)@.turn_id
            &&& final(session)@.session_id == old(session)@.session_id
            &&& final(session)@.issue_id == old(session)@.issue_id
        },
{
    if old(session).next_request_id < u64::MAX && call_ensures(
        Session::next_request,
        (session, method, params),
        r,
    ) {
        assert(final(session)@.next_request_id == final(session).next_request_id);
    }
}

/// A turn is asked for in the thread of the session, and not without one. What comes back names the turn,
/// which is reported.
pub proof fn lemma_turns_of_a_session(
    session: &mut Session,
    config: EffectiveConfig,
    prompt: &str,
    title: &str,
    asked: Result<Json, SymphonyError>,
    result: Json,
    turn_count: u32,
    emission: Emission,
)
    ensures
        call_ensures(Session::request_turn, (&*old(session), &config, prompt, title), asked) ==> {
            &&& old(session)@.thread_id is None ==> asked is Err && asked->Err_0@
                == ErrorView::ResponseError("missing thread id"@)
            &&& old(session)@.thread_id is Some ==> asked is Ok && asked->Ok_0@ == turn_request(
                config@,
                old(session)@.workspace_path,
                old(session)@.thread_id.unwrap(),
                prompt@,
                title@,
            )
        },
        call_ensures(Session::open_thread, (session, &result), ()) ==> final(session)@.thread_id
            == opened_thread(result@) && final(session)@.next_request_id
            == old(session)@.next_request_id,
        call_ensures(Session::begin_turn, (session, &result, turn_count), emission) ==> {
            &&& final(session)@.turn_id == begun_turn(result@)
            &&& final(session)@.thread_id == old(session)@.thread_id
            &&& emission@.event == "session_started"@
            &&& emission@.message == summary(result@)
            &&& emission@.turn_count == Some(turn_count)
            &&& emission@.absolute_tokens is None
            &&& emission@.rate_limits is None
        },
{
}

/// A session starts with a request to initialize it.
pub proof fn lemma_first_request(version: &str, action: StartupAction)
    requires
        call_ensures(begin_startup, (version,), action),
    ensures
        action is Request,
        action->Request_method@ == "initialize"@,
{
    assert(action@ is Request);
}

// ---------------------------------------------------------------------------
// Logs
// ---------------------------------------------------------------------------

/// Each line is logged behind a mark that says which way it went: what is sent, what comes, and what comes
/// as an error. A line that is too long is not logged.
pub proof fn lemma_marks(
    bytes: Vec<u8>,
    heard: HeardLine,
    line: String,
    failed: HeardLine,
    sent: &str,
    logged: String,
)
    ensures
        call_ensures(read_stdout_line, (&bytes,), heard) ==> {
            &&& bytes@.len() > 10_485_760 ==> heard.log is None
            &&& bytes@.len() <= 10_485_760 ==> heard.log is Some && heard.log.unwrap()@ == "<< "@
                + trimmed(utf8_lossy(bytes@))
        },
        call_ensures(read_stderr_line, (line,), failed) ==> failed.log is Some
            && failed.log.unwrap()@ == "!! "@ + line@ && failed.message@
            == IncomingMessageView::Stderr(line@),
        call_ensures(sent_log_line, (sent,), logged) ==> logged@ == ">> "@ + sent@,
{
}

/// A log begins with the time at which it was begun, and grows by a line at a time.
pub proof fn lemma_log(at: Timestamp, begun: String, current: String, line: &str, extended: String)
    ensures
        call_ensures(session_log_header, (at,), begun) ==> begun@ == "session log initialized at "@
            + chrono_rfc3339(at) + "\n"@,
        call_ensures(extend_session_log, (current, line), extended) ==> extended@ == current@ + line@
            + "\n"@,
{
}

// ---------------------------------------------------------------------------
// Workspaces
// ---------------------------------------------------------------------------

/// A workspace is created where nothing stands, and taken as it is where a directory stands; anything else
/// is refused. What earlier runs leave over in it are two directories.
pub proof fn lemma_creation(
    manager: WorkspaceManager,
    kind: PathKind,
    path: &str,
    r: Result<bool, SymphonyError>,
    left_over: Vec<String>,
)
    ensures
        call_ensures(WorkspaceManager::must_create, (&manager, kind, path), r) ==> {
            &&& kind == PathKind::Missing ==> r is Ok && r->Ok_0
            &&& kind == PathKind::Directory ==> r is Ok && !r->Ok_0
            &&& kind == PathKind::Other ==> r is Err
        },
        call_ensures(WorkspaceManager::ephemeral_artifacts, (&manager, path), left_over) ==> {
            &&& left_over@.len() == 2
            &&& left_over@[0]@ == path_join(path@, "tmp"@)
            &&& left_over@[1]@ == path_join(path@, ".elixir_ls"@)
        },
{
    if call_ensures(WorkspaceManager::ephemeral_artifacts, (&manager, path), left_over) {
        assert(left_over.deep_view().len() == left_over@.len());
        assert(left_over.deep_view()[0] == left_over@[0]@);
        assert(left_over.deep_view()[1] == left_over@[1]@);
    }
}

/// A workspace is prepared and removed where the configuration says that workspaces are, under the name of
/// its issue, and with the hook that the configuration has for that.
pub proof fn lemma_configured_workspace(
    manager: WorkspaceManager,
    identifier: &str,
    config: EffectiveConfig,
    current_dir: CurrentDir,
    preparation: WorkspacePreparation,
    removal: WorkspaceRemoval,
)
    ensures
        call_ensures(
            WorkspacePreparation::begin,
            (&manager, identifier, &config, &current_dir),
            preparation,
        ) ==> {
            &&& preparation@.script == config@.hooks.after_create
            &&& preparation@.workspace_key == workspace_key(identifier@)
            &&& workspace_path(current_dir@, config@.workspace.root, identifier@) matches Ok(path)
                ==> preparation@.path == path
        },
        call_ensures(
            WorkspaceRemoval::begin,
            (&manager, identifier, &config, &current_dir),
            removal,
        ) ==> {
            &&& removal@.script == config@.hooks.before_remove
            &&& workspace_path(current_dir@, config@.workspace.root, identifier@) matches Ok(path)
                ==> removal@.path == path
        },
{
}

// ---------------------------------------------------------------------------
// Prompts
// ---------------------------------------------------------------------------

/// What is rendered is the prompt, and what goes wrong is told as a failure of rendering.
pub proof fn lemma_rendered(rendered: Result<String, String>, r: Result<String, SymphonyError>)
    requires
        call_ensures(rendered_prompt, (rendered,), r),
    ensures
        rendered matches Ok(text) ==> r is Ok && r->Ok_0@ == text@,
        rendered matches Err(message) ==> r is Err && r->Err_0@ == ErrorView::TemplateRenderError(
            message@,
        ),
{
}

/// The first prompt of a run is the template, parsed once, and rendered with the issue and the attempt; a
/// template that is refused is told of with the reason.
pub proof fn lemma_first_prompt(
    template: &str,
    compiled: Result<PromptRenderer, SymphonyError>,
    renderer: PromptRenderer,
    issue: Issue,
    attempt: Option<u32>,
    prompt: Result<String, SymphonyError>,
)
    ensures
        call_ensures(PromptRenderer::compile, (template,), compiled) ==> {
            &&& compiled is Ok <==> liquid_refusal(prompt_source(template@)) is None
            &&& compiled is Ok ==> compiled->Ok_0.source() == prompt_source(template@)
            &&& compiled is Err ==> compiled->Err_0@ == ErrorView::TemplateParseError(
                liquid_refusal(prompt_source(template@)).unwrap(),
            )
        },
        call_ensures(PromptRenderer::render_issue_prompt, (&renderer, &issue, attempt), prompt) ==> {
            let values = prompt_values(issue@, attempt);
            &&& filling(renderer.source(), 0, values) matches Filling::Text(text) ==> prompt is Ok
                && prompt->Ok_0@ == text
            &&& filling(renderer.source(), 0, values) is Fails ==> prompt is Err
            &&& prompt is Err ==> prompt->Err_0@ is TemplateRenderError
            &&& is_settled(renderer.source()) ==> match liquid_rendering(renderer.source(), values) {
                Ok(text) => prompt is Ok && prompt->Ok_0@ == text,
                Err(message) => prompt is Err && prompt->Err_0@ == ErrorView::TemplateRenderError(
                    message,
                ),
            }
        },
{
}

/// A template without tags is its own prompt, whatever the issue is.
pub proof fn lemma_prompt_without_tags(
    renderer: PromptRenderer,
    issue: Issue,
    attempt: Option<u32>,
    prompt: Result<String, SymphonyError>,
)
    requires
        call_ensures(PromptRenderer::render_issue_prompt, (&renderer, &issue, attempt), prompt),
        forall|i: int|
            0 <= i < renderer.source().len() - 1 && renderer.source()[i] == '{' ==> {
                &&& #[trigger] renderer.source()[i + 1] != '{'
                &&& renderer.source()[i + 1] != '%'
            },
    ensures
        prompt is Ok,
        prompt->Ok_0@ == renderer.source(),
{
    let text = renderer.source();
    assert forall|i: int| !#[trigger] opens_tag(text, i) by {
        if opens_tag(text, i) {
            assert(text[i + 1] == '{' || text[i + 1] == '%');
        }
    }
    lemma_text_without_tags_is_kept(text, prompt_values(issue@, attempt));
}

// ---------------------------------------------------------------------------
// What cannot be done
// ---------------------------------------------------------------------------

/// What can be done is done, and what cannot is refused and changes nothing.
pub proof fn lemma_tries(
    heard: Heard,
    turn_count: u32,
    id: u64,
    heard_in: Option<Reaction>,
    state: &mut OrchestratorState,
    issue_id: &str,
    fetched: Result<Vec<Issue>, SymphonyError>,
    now: Timestamp,
    current_dir: CurrentDir,
    retried: Option<Vec<Effect>>,
    session: &mut Session,
    result: Json,
    begun: Option<Emission>,
    manager: WorkspaceManager,
    hook: &str,
    run: HookRun,
    timeout_ms: u64,
    finished: Option<Result<(), SymphonyError>>,
)
    ensures
        call_ensures(try_hear_in_turn, (heard, turn_count), heard_in) ==> {
            &&& heard_in is Some <==> can_hear(heard@)
            &&& heard_in is Some ==> heard_in.unwrap()@ == turn_reaction(heard@, turn_count)
        },
        call_ensures(try_hear_in_request, (heard, id), heard_in) ==> {
            &&& heard_in is Some <==> hears_answer(heard@, id) || can_hear(heard@)
            &&& heard_in is Some ==> heard_in.unwrap()@ == request_reaction(heard@, id)
        },
        call_ensures(
            OrchestratorState::try_handle_retry_due,
            (state, issue_id, fetched, now, &current_dir),
            retried,
        ) ==> {
            &&& retried is Some <==> old(state)@.can_retry(issue_id@, offered(fetched), now)
            &&& retried is Some ==> (final(state)@, retried.unwrap().deep_view())
                == old(state)@.retrying_now(issue_id@, offered(fetched), now, current_dir@)
            &&& retried is None ==> final(state)@ == old(state)@
        },
        call_ensures(Session::try_begin_turn, (session, &result, turn_count), begun) ==> {
            &&& begun is Some <==> has_summary(result@)
            &&& begun is Some ==> final(session)@ == old(session)@.with_turn(result@)
            &&& begun is None ==> *final(session) == *old(session)
        },
        call_ensures(
            WorkspaceManager::try_finish_hook,
            (&manager, hook, &run, timeout_ms),
            finished,
        ) ==> {
            &&& finished is Some <==> has_hook_message(run)
            &&& finished is Some ==> (finished.unwrap() is Ok <==> run is Exited && run->success)
        },
{
}

/// A change is of interest if it is of the file that is watched, or if it is not told what changed.
pub proof fn lemma_relevant_changes(watched: &str, changed: Vec<String>, r: bool)
    requires
        call_ensures(is_relevant_change, (watched, &changed), r),
    ensures
        r <==> changed@.len() == 0 || exists|i: int|
            0 <= i < changed@.len() && same_path((#[trigger] changed@[i])@, watched@),
{
    let views = changed.deep_view();
    if exists|i: int| 0 <= i < changed@.len() && same_path(#[trigger] views[i], watched@) {
        let i = choose|i: int| 0 <= i < changed@.len() && same_path(#[trigger] views[i], watched@);
        assert(changed@[i]@ == views[i]);
    }
    if exists|i: int| 0 <= i < changed@.len() && same_path((#[trigger] changed@[i])@, watched@) {
        let i = choose|i: int|
            0 <= i < changed@.len() && same_path((#[trigger] changed@[i])@, watched@);
        assert(changed@[i]@ == views[i]);
    }
}

} // verus!
