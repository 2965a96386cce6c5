//! What each operation comes to, in terms of the values that go into it and come out of it. What is stated
//! of those values elsewhere is thereby stated of the operations.
use vstd::prelude::*;

use crate::config::{
    build_effective_config, effective_config, env_token, expand_workspace_root, parse_string_list,
    resolve_env_token, string_list, workspace_root, Environment, RawWorkflowConfig, StringOrVec,
};
use crate::error::{error_text, ErrorView, SymphonyError};
use crate::http::{
    dashboard, issue_answer, issue_reply, snapshot_html, state_answer, state_reply, HttpReply,
    SnapshotStore,
};
use crate::json::{Json, JsonView};
use crate::lifecycle::{
    PreparationView, RemovalView, WorkspaceAction, WorkspaceEvent, WorkspacePreparation,
    WorkspaceRemoval,
};
use crate::orchestrator::{
    add_runtime, apply_absolute_tokens, idle, offered, retry_delay, retry_delay_ms, told_tokens,
    with_runtime, with_tokens, Effect, OrchestratorState, StopReason,
};
use crate::payload::{
    extract_token_usage, graphql_arguments, parse_linear_graphql_arguments, summarize_value,
    summary, token_usage,
};
use crate::protocol::{
    initialize_params, initialize_request, notification, notification_message, read_stdout_line,
    request, request_message, stdout_message, thread_params, thread_request, tool_call_reply,
    tool_reply, turn_params, turn_request, Emission, HeardLine, Reaction, SessionUpdate,
};
use crate::queue::{dispatch_order, sort_issues_for_dispatch};
use crate::service::{service_reaction, service_step, ServiceEvent, ServiceStep};
use crate::session::{
    advance_startup, can_hear, handle_value, hear_in_request, hear_in_turn, reaction,
    request_reaction, startup_step, turn_reaction, Heard, Session, StartupAction, StartupEvent,
    StartupPhase,
};
use crate::snapshot::{
    build_issue_debug_map, build_runtime_snapshot, details_of_running, details_with_retrying,
    runtime_snapshot,
};
use crate::string_map::StringMap;
use crate::time::Timestamp;
use crate::tracker::{
    answered_issues, answered_page, check_raw_graphql, issue_of, no_pages, normalize_blockers,
    normalize_issue, page_request, raw_variables, read_issue_page, read_issues, DefinitionKind,
    IssuePages, IssuePagesView,
};
use crate::types::{
    BlockerRef, CodexTotals, EffectiveConfig, EffectiveConfigView, Issue, IssueDebugSnapshot,
    IssueView, LiveSession, RuntimeSnapshot, TokenUsage, WorkflowDefinition, WorkflowDefinitionView,
};
use crate::worker::{
    new_run, worker_step, WorkerAction, WorkerActionView, WorkerEvent, WorkerInput, WorkerOutcome,
    WorkerRun,
};
use crate::workflow::{
    continuation_text, continue_issue, issue_json, issue_to_json, load_workflow_definition,
    load_workflow_runtime, loaded_config, loaded_definition, prompt_source, WorkflowRuntime,
};
use crate::workspace::{
    hook_path, hook_result, log_path, sanitize_issue_identifier, session_path, workspace_key,
    workspace_path, CurrentDir, HookRun, WorkspaceLocation, WorkspaceManager,
};

verus! {

/// What the scheduler does when it is called is what its state says.
pub proof fn lemma_calls_of_the_scheduler(
    config: EffectiveConfig,
    fresh: OrchestratorState,
    state: &mut OrchestratorState,
    count: usize,
    text: &str,
    issue: Issue,
    allowed: Option<&str>,
    answer: bool,
    attempt: Option<u32>,
    now: Timestamp,
    current_dir: CurrentDir,
    effects: Vec<Effect>,
    issues: Vec<Issue>,
    identifier: &str,
    number: u32,
    error: Option<String>,
    delay_ms: u64,
    reason: StopReason,
    ids: Vec<String>,
    update: SessionUpdate,
    outcome: WorkerOutcome,
    fetched: Result<Vec<Issue>, SymphonyError>,
    event: WorkerEvent,
)
    ensures
        call_ensures(OrchestratorState::new, (config,), fresh) ==> fresh@ == idle(config@),
        call_ensures(OrchestratorState::available_global_slots, (&*old(state),), count)
            ==> count == old(state)@.free_slots(),
        call_ensures(OrchestratorState::state_running_count, (&*old(state), text), count)
            ==> count == old(state)@.running_in(text@).len(),
        call_ensures(
            OrchestratorState::should_dispatch,
            (&*old(state), &issue, allowed),
            answer,
        ) ==> answer == old(state)@.may_take_up(issue@, allowed.deep_view()),
        call_ensures(
            OrchestratorState::dispatch_issue,
            (state, issue, attempt, now, &current_dir),
            effects,
        ) ==> (final(state)@, effects.deep_view())
            == old(state)@.taking_up(issue@, attempt, now, current_dir@),
        call_ensures(
            OrchestratorState::dispatch_candidates,
            (state, issues, now, &current_dir),
            effects,
        ) ==> (final(state)@, effects.deep_view())
            == old(state)@.taking_up_all(dispatch_order(issues.deep_view()), now, current_dir@),
        call_ensures(OrchestratorState::release_claim, (state, text), effects)
            ==> (final(state)@, effects.deep_view()) == old(state)@.letting_go(text@),
        call_ensures(
            OrchestratorState::schedule_retry,
            (state, text, identifier, number, error, delay_ms, now),
            effects,
        ) ==> (
            final(state)@,
            effects.deep_view(),
        ) == old(state)@.trying_again(
            text@,
            identifier@,
            number,
            error.deep_view(),
            delay_ms,
            now,
        ),
        call_ensures(
            OrchestratorState::cancel_running_issue,
            (state, text, reason),
            effects,
        ) ==> (final(state)@, effects.deep_view()) == old(state)@.stopping(text@, reason),
        call_ensures(
            OrchestratorState::reconcile_running_issues,
            (state, &ids, &issues),
            effects,
        ) ==> (final(state)@, effects.deep_view())
            == old(state)@.facing_all(ids.deep_view(), issues.deep_view()),
        call_ensures(
            OrchestratorState::has_room_for_update,
            (&*old(state), &update),
            answer,
        ) ==> answer == old(state)@.can_hear(update@),
        call_ensures(OrchestratorState::apply_session_update, (state, update), ())
            ==> final(state)@ == old(state)@.hearing(update@),
        call_ensures(
            OrchestratorState::has_room_for_end,
            (&*old(state), &outcome, now),
            answer,
        ) ==> answer == old(state)@.can_end(outcome@, now),
        call_ensures(
            OrchestratorState::handle_worker_finished,
            (state, outcome, now),
            effects,
        ) ==> (final(state)@, effects.deep_view()) == old(state)@.ending(outcome@, now),
        call_ensures(OrchestratorState::awaits_retry, (&*old(state), text), answer)
            ==> answer == old(state)@.retrying.dom().contains(text@),
        call_ensures(
            OrchestratorState::handle_retry_due,
            (state, text, fetched, now, &current_dir),
            effects,
        ) ==> (final(state)@, effects.deep_view())
            == old(state)@.retrying_now(text@, offered(fetched), now, current_dir@),
        call_ensures(OrchestratorState::handle_worker_event, (state, event, now), effects)
            ==> match event {
            WorkerEvent::Update(update) => final(state)@ == old(state)@.hearing(update@)
                && effects.deep_view().len() == 0,
            WorkerEvent::Finished(outcome) => (final(state)@, effects.deep_view())
                == old(state)@.ending(outcome@, now),
        },
{
}

/// What is counted of a run is what its totals say, and issues are sorted as they are taken up.
pub proof fn lemma_calls_on_totals(
    attempt: u32,
    limit: u64,
    delay: u64,
    live: &mut LiveSession,
    totals: &mut CodexTotals,
    latest: TokenUsage,
    started_at: Timestamp,
    now: Timestamp,
    issues: &mut Vec<Issue>,
    event: ServiceEvent,
    config: EffectiveConfig,
    step: ServiceStep,
)
    ensures
        call_ensures(retry_delay_ms, (attempt, limit), delay)
            ==> delay == retry_delay(attempt, limit),
        call_ensures(apply_absolute_tokens, (live, totals, &latest), ()) ==> {
            &&& final(live)@ == told_tokens(old(live)@, latest)
            &&& *final(totals) == with_tokens(*old(totals), old(live)@, latest)
        },
        call_ensures(add_runtime, (totals, started_at, now), ())
            ==> *final(totals) == with_runtime(*old(totals), started_at, now),
        call_ensures(sort_issues_for_dispatch, (issues,), ())
            ==> final(issues).deep_view() == dispatch_order(old(issues).deep_view()),
        call_ensures(service_step, (event, &config), step)
            ==> step == service_reaction(event, config.polling.interval_ms),
{
}

/// What a worker does next is what its run says.
pub proof fn lemma_calls_of_a_worker(
    config: EffectiveConfig,
    issue: Issue,
    attempt: Option<u32>,
    current_dir: CurrentDir,
    begun: (WorkerRun, WorkerAction),
    run: &mut WorkerRun,
    input: WorkerInput,
    actions: Vec<WorkerAction>,
    outcome: WorkerOutcome,
    turn: u32,
    max_turns: u32,
    text: String,
)
    ensures
        call_ensures(WorkerRun::begin, (config, issue, attempt, &current_dir), begun) ==> {
            &&& begun.0@ == new_run(config@, issue@, attempt, current_dir@)
            &&& begun.1@ == (WorkerActionView::EnsureWorkspace { identifier: issue.identifier@ })
        },
        call_ensures(WorkerRun::advance, (run, input, &current_dir), actions)
            ==> (final(run)@, actions.deep_view()) == worker_step(old(run)@, input@, current_dir@),
        call_ensures(WorkerRun::outcome, (&*old(run),), outcome) ==> outcome@ == old(run)@.outcome(),
        call_ensures(continue_issue, (&issue, turn, max_turns, attempt), text)
            ==> text@ == continuation_text(issue@, turn, max_turns, attempt),
{
}

/// What is made of what the app-server says, and what is said to it, is what its messages say.
pub proof fn lemma_calls_of_a_session(
    value: Json,
    turn_count: Option<u32>,
    r: Reaction,
    heard: Heard,
    turn: u32,
    id: u64,
    session: &mut Session,
    emission: Emission,
    at: Timestamp,
    update: SessionUpdate,
    config: EffectiveConfig,
    phase: StartupPhase,
    event: StartupEvent,
    next: (StartupPhase, StartupAction),
    bytes: Vec<u8>,
    line: HeardLine,
    outcome: Result<Json, SymphonyError>,
    sent: Json,
    text: &str,
    thread: &str,
    prompt: &str,
    title: &str,
    told: Option<String>,
    tokens: Option<TokenUsage>,
    arguments: Option<&Json>,
    parsed: Result<(String, Option<Json>), SymphonyError>,
)
    ensures
        call_ensures(handle_value, (&value, turn_count), r) ==> r@ == reaction(value@, turn_count),
        call_ensures(hear_in_turn, (heard, turn), r) ==> r@ == turn_reaction(heard@, turn),
        call_ensures(hear_in_request, (heard, id), r) ==> r@ == request_reaction(heard@, id),
        call_ensures(Session::emit_update, (&*old(session), emission, at), update)
            ==> update@ == old(session)@.update(emission@, at),
        call_ensures(advance_startup, (&config, session, phase, event), next) ==> (
            final(session)@,
            next.0,
            next.1@,
        ) == startup_step(config@, old(session)@, phase, event@),
        call_ensures(read_stdout_line, (&bytes,), line) ==> line.message@ == stdout_message(bytes@),
        call_ensures(tool_call_reply, (&value, &outcome), sent) ==> match outcome {
            Ok(body) => sent@ == tool_reply(value@, Ok(body@)),
            Err(error) => sent@ == tool_reply(value@, Err(error@)),
        },
        call_ensures(initialize_params, (text,), sent) ==> sent@ == initialize_request(text@),
        call_ensures(thread_params, (&config, text), sent)
            ==> sent@ == thread_request(config@, text@),
        call_ensures(turn_params, (&config, text, thread, prompt, title), sent)
            ==> sent@ == turn_request(config@, text@, thread@, prompt@, title@),
        call_ensures(request, (id, text, value), sent)
            ==> sent@ == request_message(id, text@, value@),
        call_ensures(notification, (text, value), sent)
            ==> sent@ == notification_message(text@, value@),
        call_ensures(summarize_value, (&value,), told) ==> told.deep_view() == summary(value@),
        call_ensures(extract_token_usage, (&value,), tokens) ==> tokens == token_usage(value@),
        call_ensures(parse_linear_graphql_arguments, (arguments,), parsed) ==> match parsed {
            Ok((query, variables)) => graphql_arguments(arguments.deep_view()) == Ok::<
                (Seq<char>, Option<JsonView>),
                ErrorView,
            >((query@, variables.deep_view())),
            Err(error) => graphql_arguments(arguments.deep_view()) == Err::<
                (Seq<char>, Option<JsonView>),
                ErrorView,
            >(error@),
        },
{
}

/// What the answers of the tracker are read as is what they say.
pub proof fn lemma_calls_of_the_tracker(
    node: Json,
    issue: Issue,
    blockers: Vec<BlockerRef>,
    issues: Result<Vec<Issue>, SymphonyError>,
    page: Result<(Vec<Issue>, Option<String>), SymphonyError>,
    states: Vec<String>,
    begun: IssuePages,
    pages: &mut IssuePages,
    slug: &str,
    sent: Json,
    absorbed: Result<(), SymphonyError>,
    outline: Result<Vec<DefinitionKind>, String>,
    variables: Option<Json>,
    checked: Result<Json, SymphonyError>,
)
    ensures
        call_ensures(normalize_issue, (&node,), issue) ==> issue@ == issue_of(node@),
        call_ensures(normalize_blockers, (&node,), blockers)
            ==> blockers.deep_view() == issue_of(node@).blocked_by,
        call_ensures(read_issues, (&node,), issues) ==> match issues {
            Ok(found) => answered_issues(node@) == Ok::<
                Seq<IssueView>,
                ErrorView,
            >(found.deep_view()),
            Err(error) => answered_issues(node@) == Err::<
                Seq<IssueView>,
                ErrorView,
            >(error@),
        },
        call_ensures(read_issue_page, (&node,), page) ==> match page {
            Ok(found) => answered_page(node@) == Ok::<
                (Seq<IssueView>, Option<Seq<char>>),
                ErrorView,
            >((found.0.deep_view(), found.1.deep_view())),
            Err(error) => answered_page(node@) == Err::<
                (Seq<IssueView>, Option<Seq<char>>),
                ErrorView,
            >(error@),
        },
        call_ensures(IssuePages::new, (&states,), begun) ==> begun@ == no_pages(states.deep_view()),
        call_ensures(IssuePages::variables, (&*old(pages), slug, &states), sent)
            ==> sent@ == page_request(slug@, states.deep_view(), old(pages)@.after),
        call_ensures(IssuePages::absorb, (pages, &node), absorbed) ==> match absorbed {
            Ok(()) => old(pages)@.with_page(node@) == Ok::<IssuePagesView, ErrorView>(final(pages)@),
            Err(error) => old(pages)@.with_page(node@) == Err::<IssuePagesView, ErrorView>(error@)
                && final(pages)@ == old(pages)@,
        },
        call_ensures(check_raw_graphql, (outline, variables), checked) ==> match outline {
            Ok(kinds) => match checked {
                Ok(value) => raw_variables(Ok(kinds@), variables.deep_view()) == Ok::<
                    JsonView,
                    ErrorView,
                >(value@),
                Err(error) => raw_variables(Ok(kinds@), variables.deep_view()) == Err::<
                    JsonView,
                    ErrorView,
                >(error@),
            },
            Err(message) => checked is Err && raw_variables(Err(message@), variables.deep_view())
                == Err::<JsonView, ErrorView>(checked->Err_0@),
        },
{
}

/// What a workflow file is loaded as is what it says.
pub proof fn lemma_calls_on_a_workflow(
    path: &str,
    definition: WorkflowDefinition,
    raw: RawWorkflowConfig,
    env: Environment,
    built: Result<EffectiveConfig, SymphonyError>,
    content: Option<&str>,
    loaded: Result<WorkflowDefinition, SymphonyError>,
    asked: Result<RawWorkflowConfig, String>,
    runtime: Result<WorkflowRuntime, SymphonyError>,
    list: Option<StringOrVec>,
    default: Vec<String>,
    texts: Vec<String>,
    token: Option<String>,
    resolved: Option<String>,
    root: Result<String, SymphonyError>,
    issue: Issue,
    shown: Json,
)
    ensures
        call_ensures(build_effective_config, (path, &definition, raw, &env), built)
            ==> match built {
            Ok(found) => effective_config(path@, definition@.prompt_template, raw, env@) == Ok::<
                EffectiveConfigView,
                ErrorView,
            >(found@),
            Err(error) => effective_config(path@, definition@.prompt_template, raw, env@) == Err::<
                EffectiveConfigView,
                ErrorView,
            >(error@),
        },
        call_ensures(load_workflow_definition, (path, content), loaded) ==> match loaded {
            Ok(found) => loaded_definition(path@, content.deep_view()) == Ok::<
                WorkflowDefinitionView,
                ErrorView,
            >(found@),
            Err(error) => loaded_definition(path@, content.deep_view()) == Err::<
                WorkflowDefinitionView,
                ErrorView,
            >(error@),
        },
        call_ensures(load_workflow_runtime, (path, &definition, asked, &env), runtime)
            ==> match runtime {
            Ok(found) => loaded_config(path@, definition@.prompt_template, asked, env@) == Ok::<
                EffectiveConfigView,
                ErrorView,
            >(found.config@) && found.prompt.source() == prompt_source(definition@.prompt_template),
            Err(error) => loaded_config(path@, definition@.prompt_template, asked, env@) == Err::<
                EffectiveConfigView,
                ErrorView,
            >(error@),
        },
        call_ensures(parse_string_list, (list, default), texts)
            ==> texts.deep_view() == string_list(list, default.deep_view()),
        call_ensures(resolve_env_token, (token, &env), resolved)
            ==> resolved.deep_view() == env_token(token.deep_view(), env@),
        call_ensures(expand_workspace_root, (token, &env), root) ==> match root {
            Ok(found) => workspace_root(token.deep_view(), env@) == Ok::<
                Seq<char>,
                ErrorView,
            >(found@),
            Err(error) => workspace_root(token.deep_view(), env@) == Err::<
                Seq<char>,
                ErrorView,
            >(error@),
        },
        call_ensures(issue_to_json, (&issue,), shown) ==> shown@ == issue_json(issue@),
{
}

/// Where a workspace is, what is done to it, and what its hooks come to is what its paths and stages
/// say.
pub proof fn lemma_calls_on_a_workspace(
    text: &str,
    name: String,
    manager: WorkspaceManager,
    config: EffectiveConfig,
    current_dir: CurrentDir,
    location: Result<WorkspaceLocation, SymphonyError>,
    path: Result<String, SymphonyError>,
    key: &str,
    run: HookRun,
    timeout_ms: u64,
    finished: Result<(), SymphonyError>,
    preparation: WorkspacePreparation,
    action: WorkspaceAction,
    event: WorkspaceEvent,
    prepared: WorkspacePreparation,
    removal: WorkspaceRemoval,
    removed: WorkspaceRemoval,
)
    ensures
        call_ensures(sanitize_issue_identifier, (text,), name) ==> name@ == workspace_key(text@),
        call_ensures(
            WorkspaceManager::locate_workspace,
            (&manager, text, &config, &current_dir),
            location,
        ) ==> match location {
            Ok(found) => workspace_path(current_dir@, config@.workspace.root, text@) == Ok::<
                Seq<char>,
                ErrorView,
            >(found.path@) && found.workspace_key@ == workspace_key(text@),
            Err(error) => workspace_path(current_dir@, config@.workspace.root, text@) == Err::<
                Seq<char>,
                ErrorView,
            >(error@),
        },
        call_ensures(
            WorkspaceManager::hook_directory,
            (&manager, text, &config, &current_dir),
            path,
        ) ==> match path {
            Ok(found) => hook_path(current_dir@, config@.workspace.root, text@) == Ok::<
                Seq<char>,
                ErrorView,
            >(found@),
            Err(error) => hook_path(current_dir@, config@.workspace.root, text@) == Err::<
                Seq<char>,
                ErrorView,
            >(error@),
        },
        call_ensures(
            WorkspaceManager::session_directory,
            (&manager, text, &config, &current_dir),
            path,
        ) ==> match path {
            Ok(found) => session_path(current_dir@, config@.workspace.root, text@) == Ok::<
                Seq<char>,
                ErrorView,
            >(found@),
            Err(error) => session_path(current_dir@, config@.workspace.root, text@) == Err::<
                Seq<char>,
                ErrorView,
            >(error@),
        },
        call_ensures(
            WorkspaceManager::session_log_path,
            (&manager, text, key, &current_dir),
            path,
        ) ==> match path {
            Ok(found) => log_path(current_dir@, text@, key@) == Ok::<
                Seq<char>,
                ErrorView,
            >(found@),
            Err(error) => log_path(current_dir@, text@, key@) == Err::<
                Seq<char>,
                ErrorView,
            >(error@),
        },
        call_ensures(
            WorkspaceManager::finish_hook,
            (&manager, text, &run, timeout_ms),
            finished,
        ) ==> match finished {
            Ok(found) => hook_result(text@, run, timeout_ms) == Ok::<
                (),
                ErrorView,
            >(found),
            Err(error) => hook_result(text@, run, timeout_ms) == Err::<
                (),
                ErrorView,
            >(error@),
        },
        call_ensures(
            WorkspacePreparation::begin,
            (&manager, text, &config, &current_dir),
            preparation,
        ) ==> preparation@ == PreparationView::beginning(
            current_dir@,
            config@.workspace.root,
            text@,
            config@.hooks.after_create,
        ),
        call_ensures(WorkspacePreparation::action, (&preparation, &manager), action)
            ==> action@ == preparation@.action(),
        call_ensures(
            WorkspacePreparation::advance,
            (preparation, &manager, event),
            prepared,
        ) ==> prepared@
            == (PreparationView { stage: preparation@.next_stage(event@), ..preparation@ }),
        call_ensures(
            WorkspaceRemoval::begin,
            (&manager, text, &config, &current_dir),
            removal,
        ) ==> removal@ == RemovalView::beginning(
            current_dir@,
            config@.workspace.root,
            text@,
            config@.hooks.before_remove,
        ),
        call_ensures(WorkspaceRemoval::action, (&removal,), action) ==> action@ == removal@.action(),
        call_ensures(WorkspaceRemoval::advance, (removal, event), removed)
            ==> removed@ == (RemovalView { stage: removal@.next_stage(event@), ..removal@ }),
{
}

/// What clients are told is what was published, and what is published is what the scheduler has.
pub proof fn lemma_calls_of_clients(
    state: OrchestratorState,
    now: Timestamp,
    snapshot: RuntimeSnapshot,
    issues: StringMap<IssueDebugSnapshot>,
    store: &mut SnapshotStore,
    seconds: Json,
    reply: HttpReply,
    text: &str,
    page: String,
    error: SymphonyError,
)
    ensures
        call_ensures(build_runtime_snapshot, (&state, now), snapshot)
            ==> snapshot@ == runtime_snapshot(
            state.running.entry_views(),
            state.retry_attempts.entry_views(),
            state@.totals,
            state@.rate_limits,
            now,
        ),
        call_ensures(build_issue_debug_map, (&state,), issues)
            ==> issues.deep_view() == details_with_retrying(
            details_of_running(state.running.entry_views(), state@.retrying),
            state.retry_attempts.entry_views(),
            state@.config.workspace.root,
        ),
        call_ensures(SnapshotStore::publish, (store, snapshot, issues), ()) ==> {
            &&& final(store)@.snapshot == Some(snapshot@)
            &&& final(store)@.issues == issues.deep_view()
        },
        call_ensures(state_reply, (&*old(store), seconds), reply)
            ==> (reply.status, reply.body@) == state_answer(old(store)@, seconds@),
        call_ensures(issue_reply, (&*old(store), text), reply)
            ==> (reply.status, reply.body@) == issue_answer(old(store)@, text@),
        call_ensures(dashboard, (&*old(store), text), page) ==> match old(store)@.snapshot {
            Some(found) => page@ == snapshot_html(found, text@),
            None => page@ == "<html><body><h1>Symphony</h1><p>No state yet.</p></body></html>"@,
        },
        call_ensures(SymphonyError::to_string, (&error,), page) ==> page@ == error_text(error@),
{
}

} // verus!
