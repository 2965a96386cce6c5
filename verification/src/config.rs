//! The configuration that the front matter of a workflow file asks for, made complete.
use vstd::prelude::*;

use crate::duplicate::Duplicate;
use crate::error::{ErrorView, SymphonyError};
use crate::json::{json_object_of_one, json_string, Json, JsonView};
use crate::path::{join_path, path_join};
use crate::string_map::StringMap;
use crate::text::{
    begins_with, chars_of, i64_literal, is_blank, is_blank_text, list_items, parse_integer, split_list,
    str_eq, string_of,
};
use crate::types::{
    normalized_state, AgentSettings, AgentSettingsView, CodexSettings, CodexSettingsView,
    EffectiveConfig, EffectiveConfigView, HookSettings, HookSettingsView, PollingSettings,
    ServerSettings, TrackerSettings, TrackerSettingsView, WorkflowDefinition, WorkspaceSettings,
    WorkspaceSettingsView,
};

verus! {

/// How often the tracker is polled where nothing else is asked for.
pub const DEFAULT_POLL_INTERVAL_MS: u64 = 30_000;

/// How long a hook may take where nothing else is asked for.
pub const DEFAULT_HOOK_TIMEOUT_MS: u64 = 60_000;

/// How many agents run at once where nothing else is asked for.
pub const DEFAULT_MAX_CONCURRENT_AGENTS: usize = 10;

/// How many turns a run has where nothing else is asked for.
pub const DEFAULT_MAX_TURNS: u32 = 20;

/// The longest time before a retry where nothing else is asked for.
pub const DEFAULT_MAX_RETRY_BACKOFF_MS: u64 = 300_000;

/// How long a turn may take where nothing else is asked for.
pub const DEFAULT_TURN_TIMEOUT_MS: u64 = 3_600_000;

/// How long an answer may take where nothing else is asked for.
pub const DEFAULT_READ_TIMEOUT_MS: u64 = 5_000;

/// How long a session may be silent where nothing else is asked for.
pub const DEFAULT_STALL_TIMEOUT_MS: i64 = 300_000;

/// What stands for a limit by state that spells no integer.
pub const NO_LIMIT: i64 = -1;

// ---------------------------------------------------------------------------
// What is asked for
// ---------------------------------------------------------------------------

/// An integer, or a text that may spell one.
#[derive(Debug, PartialEq)]
pub enum IntLike {
    Integer(i64),
    String(String),
}

/// A text, or a list of texts.
#[derive(Debug, PartialEq)]
pub enum StringOrVec {
    One(String),
    Many(Vec<String>),
}

/// What a workflow file says of the tracker.
#[derive(Debug, PartialEq)]
pub struct RawTracker {
    pub kind: Option<String>,
    pub endpoint: Option<String>,
    pub api_key: Option<String>,
    pub project_slug: Option<String>,
    pub active_states: Option<StringOrVec>,
    pub terminal_states: Option<StringOrVec>,
}

/// What a workflow file says of polling.
#[derive(Debug, PartialEq)]
pub struct RawPolling {
    pub interval_ms: Option<IntLike>,
}

/// What a workflow file says of workspaces.
#[derive(Debug, PartialEq)]
pub struct RawWorkspace {
    pub root: Option<String>,
}

/// What a workflow file says of hooks.
#[derive(Debug, PartialEq)]
pub struct RawHooks {
    pub after_create: Option<String>,
    pub before_run: Option<String>,
    pub after_run: Option<String>,
    pub before_remove: Option<String>,
    pub timeout_ms: Option<IntLike>,
}

/// What a workflow file says of agents.
#[derive(Debug, PartialEq)]
pub struct RawAgent {
    pub max_concurrent_agents: Option<IntLike>,
    pub max_turns: Option<IntLike>,
    pub max_retry_backoff_ms: Option<IntLike>,
    pub max_concurrent_agents_by_state: Option<StringMap<IntLike>>,
}

/// What a workflow file says of Codex.
#[derive(Debug, PartialEq)]
pub struct RawCodex {
    pub command: Option<String>,
    pub approval_policy: Option<Json>,
    pub thread_sandbox: Option<Json>,
    pub turn_sandbox_policy: Option<Json>,
    pub turn_timeout_ms: Option<IntLike>,
    pub read_timeout_ms: Option<IntLike>,
    pub stall_timeout_ms: Option<IntLike>,
}

/// What a workflow file says of the HTTP server.
#[derive(Debug, PartialEq)]
pub struct RawServer {
    pub port: Option<u16>,
}

/// What a workflow file asks for, section by section.
#[derive(Debug, PartialEq)]
pub struct RawWorkflowConfig {
    pub tracker: Option<RawTracker>,
    pub polling: Option<RawPolling>,
    pub workspace: Option<RawWorkspace>,
    pub hooks: Option<RawHooks>,
    pub agent: Option<RawAgent>,
    pub codex: Option<RawCodex>,
    pub server: Option<RawServer>,
}

/// What the process finds around it: the environment variables that are text, and the directory for
/// temporary files.
#[derive(Debug, PartialEq)]
pub struct Environment {
    pub variables: StringMap<String>,
    pub temp_dir: String,
}

/// The mathematical value of an [`Environment`].
pub ghost struct EnvironmentView {
    pub variables: Map<Seq<char>, Seq<char>>,
    pub temp_dir: Seq<char>,
}

impl View for Environment {
    type V = EnvironmentView;

    open spec fn view(&self) -> EnvironmentView {
        EnvironmentView { variables: self.variables.deep_view(), temp_dir: self.temp_dir@ }
    }
}

impl EnvironmentView {
    /// The value of a variable.
    pub open spec fn var(self, name: Seq<char>) -> Option<Seq<char>> {
        if self.variables.contains_key(name) {
            Some(self.variables[name])
        } else {
            None
        }
    }
}

impl Environment {
    fn var(&self, name: &str) -> (r: Option<String>)
        ensures
            r.deep_view() == self@.var(name@),
    {
        match self.variables.get(name) {
            Some(value) => Some(value.clone()),
            None => None,
        }
    }
}

// ---------------------------------------------------------------------------
// Single values
// ---------------------------------------------------------------------------

/// The integer that is asked for; the default where there is none.
pub open spec fn int_value(value: Option<IntLike>, default: i64) -> i64 {
    match value {
        Some(IntLike::Integer(n)) => n,
        Some(IntLike::String(text)) => match i64_literal(text@) {
            Some(n) => n,
            None => default,
        },
        None => default,
    }
}

/// The integer that is asked for, unless it is negative.
pub open spec fn u64_value(value: Option<IntLike>, default: u64) -> u64 {
    let parsed = int_value(value, default as i64);
    if parsed < 0 {
        default
    } else {
        parsed as u64
    }
}

/// The low 32 bits of the integer that is asked for, unless it is negative.
pub open spec fn u32_value(value: Option<IntLike>, default: u32) -> u32 {
    let parsed = int_value(value, default as i64);
    if parsed < 0 {
        default
    } else {
        parsed as u32
    }
}

/// The integer that is asked for, unless it is zero or negative.
pub open spec fn usize_value(value: Option<IntLike>, default: usize) -> usize {
    let parsed = int_value(value, default as i64);
    if parsed <= 0 {
        default
    } else {
        parsed as usize
    }
}

/// The time that hooks are given, unless it is zero or negative.
pub open spec fn hook_timeout(value: Option<IntLike>) -> u64 {
    let parsed = int_value(value, DEFAULT_HOOK_TIMEOUT_MS as i64);
    if parsed <= 0 {
        DEFAULT_HOOK_TIMEOUT_MS
    } else {
        parsed as u64
    }
}

/// The texts that are asked for; a single text is a list with commas.
pub open spec fn string_list(value: Option<StringOrVec>, default: Seq<Seq<char>>) -> Seq<
    Seq<char>,
> {
    match value {
        Some(StringOrVec::One(text)) => list_items(text@),
        Some(StringOrVec::Many(texts)) => texts.deep_view(),
        None => default,
    }
}

/// The text, or the value of the variable that it names with a dollar sign, where that is not blank.
pub open spec fn env_token(value: Option<Seq<char>>, env: EnvironmentView) -> Option<Seq<char>> {
    match value {
        Some(text) => if text.len() > 0 && text[0] == '$' {
            match env.var(text.skip(1)) {
                Some(resolved) => if is_blank(resolved) {
                    None
                } else {
                    Some(resolved)
                },
                None => None,
            }
        } else {
            Some(text)
        },
        None => None,
    }
}

/// The integer that is asked for; the default where there is none.
pub fn parse_i64(value: &Option<IntLike>, default: i64) -> (r: i64)
    ensures
        r == int_value(*value, default),
{
    match value {
        Some(IntLike::Integer(n)) => *n,
        Some(IntLike::String(text)) => match parse_integer(text.as_str()) {
            Some(n) => n,
            None => default,
        },
        None => default,
    }
}

/// The integer that is asked for, unless it is negative.
pub fn parse_u64(value: &Option<IntLike>, default: u64) -> (r: u64)
    ensures
        r == u64_value(*value, default),
{
    let parsed = parse_i64(value, #[verifier::truncate] (default as i64));
    if parsed < 0 {
        default
    } else {
        parsed as u64
    }
}

/// The low 32 bits of the integer that is asked for, unless it is negative.
pub fn parse_u32(value: &Option<IntLike>, default: u32) -> (r: u32)
    ensures
        r == u32_value(*value, default),
{
    let parsed = parse_i64(value, default as i64);
    if parsed < 0 {
        default
    } else {
        #[verifier::truncate]
        (parsed as u32)
    }
}

/// The integer that is asked for, unless it is zero or negative.
pub fn parse_usize(value: &Option<IntLike>, default: usize) -> (r: usize)
    ensures
        r == usize_value(*value, default),
{
    let parsed = parse_i64(value, #[verifier::truncate] (default as i64));
    if parsed <= 0 {
        default
    } else {
        #[verifier::truncate]
        (parsed as usize)
    }
}

/// The time that hooks are given, unless it is zero or negative.
pub fn parse_hook_timeout(value: &Option<IntLike>) -> (r: u64)
    ensures
        r == hook_timeout(*value),
{
    let parsed = parse_i64(value, DEFAULT_HOOK_TIMEOUT_MS as i64);
    if parsed <= 0 {
        DEFAULT_HOOK_TIMEOUT_MS
    } else {
        parsed as u64
    }
}

/// The texts that are asked for; a single text is a list with commas.
pub fn parse_string_list(value: Option<StringOrVec>, default: Vec<String>) -> (r: Vec<String>)
    ensures
        r.deep_view() == string_list(value, default.deep_view()),
{
    match value {
        Some(StringOrVec::One(text)) => split_list(text.as_str()),
        Some(StringOrVec::Many(texts)) => texts,
        None => default,
    }
}

/// The text, or the value of the variable that it names with a dollar sign, where that is not blank.
pub fn resolve_env_token(value: Option<String>, env: &Environment) -> (r: Option<String>)
    ensures
        r.deep_view() == env_token(value.deep_view(), env@),
{
    match value {
        Some(text) => {
            let chars = chars_of(text.as_str());
            if chars.len() > 0 && chars[0] == '$' {
                let name = string_of(&chars, 1, chars.len());
                proof {
                    assert(name@ =~= text@.skip(1));
                }
                match env.var(name.as_str()) {
                    Some(resolved) => if is_blank_text(resolved.as_str()) {
                        None
                    } else {
                        Some(resolved)
                    },
                    None => None,
                }
            } else {
                Some(text)
            }
        },
        None => None,
    }
}

/// The home directory of the user.
pub open spec fn home(env: EnvironmentView) -> Result<Seq<char>, ErrorView> {
    match env.var("HOME"@) {
        Some(dir) => Ok(dir),
        None => Err(ErrorView::InvalidConfig("HOME is not set"@)),
    }
}

/// The home directory of the user.
pub fn home_dir(env: &Environment) -> (r: Result<String, SymphonyError>)
    ensures
        match r {
            Ok(dir) => home(env@) == Ok::<Seq<char>, ErrorView>(dir@),
            Err(error) => home(env@) == Err::<Seq<char>, ErrorView>(error@),
        },
{
    match env.var("HOME") {
        Some(dir) => Ok(dir),
        None => Err(SymphonyError::InvalidConfig("HOME is not set".to_owned())),
    }
}

/// Where the workspaces are where nothing else is asked for.
pub open spec fn default_root(env: EnvironmentView) -> Seq<char> {
    path_join(env.temp_dir, "symphony_workspaces"@)
}

/// A path in which a leading `~` stands for the home directory.
pub open spec fn expanded(path: Seq<char>, env: EnvironmentView) -> Result<Seq<char>, ErrorView> {
    if path == "~"@ {
        home(env)
    } else if "~/"@.is_prefix_of(path) {
        match home(env) {
            Ok(dir) => Ok(path_join(dir, path.skip(2))),
            Err(error) => Err(error),
        }
    } else {
        Ok(path)
    }
}

/// Where the workspaces are: what is asked for, or the value of the variable that it names, with the
/// home directory filled in.
pub open spec fn workspace_root(root: Option<Seq<char>>, env: EnvironmentView) -> Result<
    Seq<char>,
    ErrorView,
> {
    let asked = match root {
        Some(text) => text,
        None => default_root(env),
    };
    expanded(
        match env_token(Some(asked), env) {
            Some(text) => text,
            None => default_root(env),
        },
        env,
    )
}

fn place_by_default(env: &Environment) -> (r: String)
    ensures
        r@ == default_root(env@),
{
    join_path(env.temp_dir.as_str(), "symphony_workspaces")
}

/// Where the workspaces are.
pub fn expand_workspace_root(root: Option<String>, env: &Environment) -> (r: Result<
    String,
    SymphonyError,
>)
    ensures
        match r {
            Ok(path) => workspace_root(root.deep_view(), env@) == Ok::<Seq<char>, ErrorView>(path@),
            Err(error) => workspace_root(root.deep_view(), env@) == Err::<Seq<char>, ErrorView>(
                error@,
            ),
        },
{
    let asked = match root {
        Some(text) => text,
        None => place_by_default(env),
    };
    let value = match resolve_env_token(Some(asked), env) {
        Some(text) => text,
        None => place_by_default(env),
    };
    if str_eq(value.as_str(), "~") {
        return home_dir(env);
    }
    let chars = chars_of(value.as_str());
    let mark = chars_of("~/");
    if begins_with(&chars, &mark) {
        proof {
            reveal_strlit("~/");
        }
        let rest = string_of(&chars, 2, chars.len());
        proof {
            assert(rest@ =~= value@.skip(2));
        }
        match home_dir(env) {
            Ok(dir) => Ok(join_path(dir.as_str(), rest.as_str())),
            Err(error) => Err(error),
        }
    } else {
        Ok(value)
    }
}

// ---------------------------------------------------------------------------
// Sections
// ---------------------------------------------------------------------------

/// A section without anything in it.
pub open spec fn no_tracker() -> RawTracker {
    RawTracker {
        kind: None,
        endpoint: None,
        api_key: None,
        project_slug: None,
        active_states: None,
        terminal_states: None,
    }
}

/// A section without anything in it.
pub open spec fn no_hooks() -> RawHooks {
    RawHooks {
        after_create: None,
        before_run: None,
        after_run: None,
        before_remove: None,
        timeout_ms: None,
    }
}

/// A section without anything in it.
pub open spec fn no_agent() -> RawAgent {
    RawAgent {
        max_concurrent_agents: None,
        max_turns: None,
        max_retry_backoff_ms: None,
        max_concurrent_agents_by_state: None,
    }
}

/// A section without anything in it.
pub open spec fn no_codex() -> RawCodex {
    RawCodex {
        command: None,
        approval_policy: None,
        thread_sandbox: None,
        turn_sandbox_policy: None,
        turn_timeout_ms: None,
        read_timeout_ms: None,
        stall_timeout_ms: None,
    }
}

/// The text that is asked for, or the default.
pub open spec fn text_or(value: Option<String>, default: Seq<char>) -> Seq<char> {
    match value {
        Some(text) => text@,
        None => default,
    }
}

/// The value that is asked for, or the default.
pub open spec fn json_or(value: Option<Json>, default: JsonView) -> JsonView {
    match value {
        Some(value) => value@,
        None => default,
    }
}

/// How the tracker is reached. Without a key, or with one that names a variable without a value, the
/// key is that of the environment.
pub open spec fn tracker_settings(raw: RawTracker, env: EnvironmentView) -> TrackerSettingsView {
    TrackerSettingsView {
        kind: text_or(raw.kind, "linear"@),
        endpoint: text_or(raw.endpoint, "https://api.linear.app/graphql"@),
        api_key: match env_token(raw.api_key.deep_view(), env) {
            Some(key) => key,
            None => match env.var("LINEAR_API_KEY"@) {
                Some(key) => if is_blank(key) {
                    seq![]
                } else {
                    key
                },
                None => seq![],
            },
        },
        project_slug: text_or(raw.project_slug, seq![]),
        active_states: string_list(raw.active_states, seq!["Todo"@, "In Progress"@]),
        terminal_states: string_list(
            raw.terminal_states,
            seq!["Closed"@, "Cancelled"@, "Canceled"@, "Duplicate"@, "Done"@],
        ),
    }
}

/// The hooks that are asked for.
pub open spec fn hook_settings(raw: RawHooks) -> HookSettingsView {
    HookSettingsView {
        after_create: raw.after_create.deep_view(),
        before_run: raw.before_run.deep_view(),
        after_run: raw.after_run.deep_view(),
        before_remove: raw.before_remove.deep_view(),
        timeout_ms: hook_timeout(raw.timeout_ms),
    }
}

/// The limit that is asked for; what spells no integer is no limit.
pub open spec fn limit_value(value: IntLike) -> i64 {
    int_value(Some(value), NO_LIMIT)
}

/// The limits by state that are asked for, as far as they are positive. States are told apart
/// without regard to case and surrounding white space; of two limits for one state the later holds.
pub open spec fn state_limits(entries: Seq<(Seq<char>, IntLike)>) -> Map<Seq<char>, usize>
    decreases entries.len(),
{
    if entries.len() == 0 {
        Map::empty()
    } else {
        let before = state_limits(entries.drop_last());
        let limit = limit_value(entries.last().1);
        if limit > 0 {
            before.insert(normalized_state(entries.last().0), limit as usize)
        } else {
            before
        }
    }
}

/// How many agents run at once, and how failed runs are tried again.
pub open spec fn agent_settings(raw: RawAgent) -> AgentSettingsView {
    AgentSettingsView {
        max_concurrent_agents: usize_value(
            raw.max_concurrent_agents,
            DEFAULT_MAX_CONCURRENT_AGENTS,
        ),
        max_turns: u32_value(raw.max_turns, DEFAULT_MAX_TURNS),
        max_retry_backoff_ms: u64_value(raw.max_retry_backoff_ms, DEFAULT_MAX_RETRY_BACKOFF_MS),
        max_concurrent_agents_by_state: match raw.max_concurrent_agents_by_state {
            Some(limits) => state_limits(limits.entries()),
            None => Map::empty(),
        },
    }
}

/// How Codex is started and asked.
pub open spec fn codex_settings(raw: RawCodex) -> CodexSettingsView {
    CodexSettingsView {
        command: text_or(raw.command, "codex app-server"@),
        approval_policy: json_or(raw.approval_policy, JsonView::String("never"@)),
        thread_sandbox: json_or(raw.thread_sandbox, JsonView::String("danger-full-access"@)),
        turn_sandbox_policy: json_or(
            raw.turn_sandbox_policy,
            JsonView::Object(seq![("type"@, JsonView::String("dangerFullAccess"@))]),
        ),
        turn_timeout_ms: u64_value(raw.turn_timeout_ms, DEFAULT_TURN_TIMEOUT_MS),
        read_timeout_ms: u64_value(raw.read_timeout_ms, DEFAULT_READ_TIMEOUT_MS),
        stall_timeout_ms: int_value(raw.stall_timeout_ms, DEFAULT_STALL_TIMEOUT_MS),
    }
}

/// The whole configuration. It fails only where the workspace root cannot be told.
pub open spec fn effective_config(
    path: Seq<char>,
    prompt_template: Seq<char>,
    raw: RawWorkflowConfig,
    env: EnvironmentView,
) -> Result<EffectiveConfigView, ErrorView> {
    let root = match raw.workspace {
        Some(workspace) => workspace.root.deep_view(),
        None => None,
    };
    match workspace_root(root, env) {
        Err(error) => Err(error),
        Ok(root) => Ok(
            EffectiveConfigView {
                workflow_path: path,
                prompt_template,
                tracker: tracker_settings(raw.tracker.unwrap_or(no_tracker()), env),
                polling: PollingSettings {
                    interval_ms: u64_value(
                        match raw.polling {
                            Some(polling) => polling.interval_ms,
                            None => None,
                        },
                        DEFAULT_POLL_INTERVAL_MS,
                    ),
                },
                workspace: WorkspaceSettingsView { root },
                hooks: hook_settings(raw.hooks.unwrap_or(no_hooks())),
                agent: agent_settings(raw.agent.unwrap_or(no_agent())),
                codex: codex_settings(raw.codex.unwrap_or(no_codex())),
                server: ServerSettings {
                    port: match raw.server {
                        Some(server) => server.port,
                        None => None,
                    },
                },
            },
        ),
    }
}

fn take_text(value: Option<String>, default: &str) -> (r: String)
    ensures
        r@ == text_or(value, default@),
{
    match value {
        Some(text) => text,
        None => default.to_owned(),
    }
}

/// How the tracker is reached.
pub fn build_tracker_settings(raw: RawTracker, env: &Environment) -> (r: TrackerSettings)
    ensures
        r@ == tracker_settings(raw, env@),
{
    let api_key = match resolve_env_token(raw.api_key, env) {
        Some(key) => key,
        None => match env.var("LINEAR_API_KEY") {
            Some(key) => if is_blank_text(key.as_str()) {
                String::new()
            } else {
                key
            },
            None => String::new(),
        },
    };
    proof {
        reveal_strlit("");
        assert(""@ =~= seq![]);
    }
    let mut active: Vec<String> = Vec::new();
    active.push("Todo".to_owned());
    active.push("In Progress".to_owned());
    let mut terminal: Vec<String> = Vec::new();
    terminal.push("Closed".to_owned());
    terminal.push("Cancelled".to_owned());
    terminal.push("Canceled".to_owned());
    terminal.push("Duplicate".to_owned());
    terminal.push("Done".to_owned());
    proof {
        assert(active.deep_view() =~= seq!["Todo"@, "In Progress"@]);
        assert(terminal.deep_view() =~= seq![
            "Closed"@,
            "Cancelled"@,
            "Canceled"@,
            "Duplicate"@,
            "Done"@,
        ]);
    }
    let r = TrackerSettings {
        kind: take_text(raw.kind, "linear"),
        endpoint: take_text(raw.endpoint, "https://api.linear.app/graphql"),
        api_key,
        project_slug: take_text(raw.project_slug, ""),
        active_states: parse_string_list(raw.active_states, active),
        terminal_states: parse_string_list(raw.terminal_states, terminal),
    };
    proof {
        assert(r@.api_key =~= tracker_settings(raw, env@).api_key);
    }
    r
}

fn build_hook_settings(raw: RawHooks) -> (r: HookSettings)
    ensures
        r@ == hook_settings(raw),
{
    HookSettings {
        after_create: raw.after_create,
        before_run: raw.before_run,
        after_run: raw.after_run,
        before_remove: raw.before_remove,
        timeout_ms: parse_hook_timeout(&raw.timeout_ms),
    }
}

fn build_state_limits(limits: &StringMap<IntLike>) -> (r: StringMap<usize>)
    ensures
        r@ == state_limits(limits.entries()),
{
    let mut r: StringMap<usize> = StringMap::new();
    let n = limits.len();
    let ghost entries = limits.entries();
    for i in 0..n
        invariant
            entries == limits.entries(),
            n == entries.len(),
            r@ == state_limits(entries.take(i as int)),
    {
        proof {
            assert(entries.take(i + 1).drop_last() =~= entries.take(i as int));
            assert(entries.take(i + 1).last() == entries[i as int]);
        }
        let limit = match limits.value_at(i) {
            IntLike::Integer(n) => *n,
            IntLike::String(text) => match parse_integer(text.as_str()) {
                Some(n) => n,
                None => NO_LIMIT,
            },
        };
        if limit > 0 {
            let key = EffectiveConfig::normalize_state(limits.key_at(i));
            let _ = r.insert(
                key,
                #[verifier::truncate]
                (limit as usize),
            );
        }
    }
    proof {
        assert(entries.take(n as int) =~= entries);
    }
    r
}

fn build_agent_settings(raw: RawAgent) -> (r: AgentSettings)
    ensures
        r@ == agent_settings(raw),
{
    let limits = match &raw.max_concurrent_agents_by_state {
        Some(limits) => build_state_limits(limits),
        None => StringMap::new(),
    };
    let r = AgentSettings {
        max_concurrent_agents: parse_usize(
            &raw.max_concurrent_agents,
            DEFAULT_MAX_CONCURRENT_AGENTS,
        ),
        max_turns: parse_u32(&raw.max_turns, DEFAULT_MAX_TURNS),
        max_retry_backoff_ms: parse_u64(&raw.max_retry_backoff_ms, DEFAULT_MAX_RETRY_BACKOFF_MS),
        max_concurrent_agents_by_state: limits,
    };
    proof {
        assert(r@.max_concurrent_agents_by_state =~= limits@);
    }
    r
}

fn build_codex_settings(raw: RawCodex) -> (r: CodexSettings)
    ensures
        r@ == codex_settings(raw),
{
    CodexSettings {
        command: take_text(raw.command, "codex app-server"),
        approval_policy: match raw.approval_policy {
            Some(value) => value,
            None => json_string("never"),
        },
        thread_sandbox: match raw.thread_sandbox {
            Some(value) => value,
            None => json_string("danger-full-access"),
        },
        turn_sandbox_policy: match raw.turn_sandbox_policy {
            Some(value) => value,
            None => json_object_of_one("type", json_string("dangerFullAccess")),
        },
        turn_timeout_ms: parse_u64(&raw.turn_timeout_ms, DEFAULT_TURN_TIMEOUT_MS),
        read_timeout_ms: parse_u64(&raw.read_timeout_ms, DEFAULT_READ_TIMEOUT_MS),
        stall_timeout_ms: parse_i64(&raw.stall_timeout_ms, DEFAULT_STALL_TIMEOUT_MS),
    }
}

/// The whole configuration.
pub fn build_effective_config(
    path: &str,
    definition: &WorkflowDefinition,
    raw: RawWorkflowConfig,
    env: &Environment,
) -> (r: Result<EffectiveConfig, SymphonyError>)
    ensures
        match r {
            Ok(config) => effective_config(path@, definition@.prompt_template, raw, env@) == Ok::<
                EffectiveConfigView,
                ErrorView,
            >(config@),
            Err(error) => effective_config(path@, definition@.prompt_template, raw, env@) == Err::<
                EffectiveConfigView,
                ErrorView,
            >(error@),
        },
{
    let raw_tracker = match raw.tracker {
        Some(tracker) => tracker,
        None => RawTracker {
            kind: None,
            endpoint: None,
            api_key: None,
            project_slug: None,
            active_states: None,
            terminal_states: None,
        },
    };
    let tracker = build_tracker_settings(raw_tracker, env);
    let interval_ms = match raw.polling {
        Some(polling) => parse_u64(&polling.interval_ms, DEFAULT_POLL_INTERVAL_MS),
        None => parse_u64(&None, DEFAULT_POLL_INTERVAL_MS),
    };
    let asked_root = match raw.workspace {
        Some(workspace) => workspace.root,
        None => None,
    };
    let root = match expand_workspace_root(asked_root, env) {
        Ok(root) => root,
        Err(error) => {
            return Err(error);
        },
    };
    let raw_hooks = match raw.hooks {
        Some(hooks) => hooks,
        None => RawHooks {
            after_create: None,
            before_run: None,
            after_run: None,
            before_remove: None,
            timeout_ms: None,
        },
    };
    let raw_agent = match raw.agent {
        Some(agent) => agent,
        None => RawAgent {
            max_concurrent_agents: None,
            max_turns: None,
            max_retry_backoff_ms: None,
            max_concurrent_agents_by_state: None,
        },
    };
    let raw_codex = match raw.codex {
        Some(codex) => codex,
        None => RawCodex {
            command: None,
            approval_policy: None,
            thread_sandbox: None,
            turn_sandbox_policy: None,
            turn_timeout_ms: None,
            read_timeout_ms: None,
            stall_timeout_ms: None,
        },
    };
    let port = match raw.server {
        Some(server) => server.port,
        None => None,
    };
    Ok(
        EffectiveConfig {
            workflow_path: path.to_owned(),
            prompt_template: definition.prompt_template.clone(),
            tracker,
            polling: PollingSettings { interval_ms },
            workspace: WorkspaceSettings { root },
            hooks: build_hook_settings(raw_hooks),
            agent: build_agent_settings(raw_agent),
            codex: build_codex_settings(raw_codex),
            server: ServerSettings { port },
        },
    )
}

// ---------------------------------------------------------------------------
// Validation
// ---------------------------------------------------------------------------

/// What keeps work from being polled for and dispatched.
pub open spec fn dispatch_problem(config: EffectiveConfigView) -> Option<ErrorView> {
    if is_blank(config.tracker.kind) {
        Some(ErrorView::UnsupportedTrackerKind(seq![]))
    } else if config.tracker.kind != "linear"@ {
        Some(ErrorView::UnsupportedTrackerKind(config.tracker.kind))
    } else if is_blank(config.tracker.api_key) {
        Some(ErrorView::MissingTrackerApiKey)
    } else if is_blank(config.tracker.project_slug) {
        Some(ErrorView::MissingTrackerProjectSlug)
    } else if is_blank(config.codex.command) {
        Some(ErrorView::InvalidConfig("codex.command must be present and non-empty"@))
    } else {
        None
    }
}

/// Make sure that work can be polled for and dispatched.
pub fn validate_dispatch_config(config: &EffectiveConfig) -> (r: Result<(), SymphonyError>)
    ensures
        match r {
            Ok(()) => dispatch_problem(config@) is None,
            Err(error) => dispatch_problem(config@) == Some(error@),
        },
{
    if is_blank_text(config.tracker.kind.as_str()) {
        let kind = String::new();
        proof {
            assert(kind@ =~= seq![]);
        }
        return Err(SymphonyError::UnsupportedTrackerKind(kind));
    }
    if !str_eq(config.tracker.kind.as_str(), "linear") {
        return Err(SymphonyError::UnsupportedTrackerKind(config.tracker.kind.clone()));
    }
    if is_blank_text(config.tracker.api_key.as_str()) {
        return Err(SymphonyError::MissingTrackerApiKey);
    }
    if is_blank_text(config.tracker.project_slug.as_str()) {
        return Err(SymphonyError::MissingTrackerProjectSlug);
    }
    if is_blank_text(config.codex.command.as_str()) {
        return Err(
            SymphonyError::InvalidConfig(
                "codex.command must be present and non-empty".to_owned(),
            ),
        );
    }
    Ok(())
}

// ---------------------------------------------------------------------------
// Laws
// ---------------------------------------------------------------------------

/// Every limit by state is positive, and is kept under a state without regard to case and
/// surrounding white space.
pub proof fn lemma_state_limits_are_normalized(entries: Seq<(Seq<char>, IntLike)>)
    ensures
        forall|state: Seq<char>|
            state_limits(entries).contains_key(state) ==> exists|i: int|
                0 <= i < entries.len() && normalized_state((#[trigger] entries[i]).0) == state
                    && limit_value(entries[i].1) > 0 && state_limits(entries)[state]
                    == limit_value(entries[i].1) as usize,
    decreases entries.len(),
{
    if entries.len() > 0 {
        let before = entries.drop_last();
        lemma_state_limits_are_normalized(before);
        assert forall|state: Seq<char>| state_limits(entries).contains_key(state) implies exists|
            i: int,
        |
            0 <= i < entries.len() && normalized_state((#[trigger] entries[i]).0) == state
                && limit_value(entries[i].1) > 0 && state_limits(entries)[state]
                == limit_value(entries[i].1) as usize by {
            let last = entries.len() - 1;
            if limit_value(entries[last].1) > 0 && normalized_state(entries[last].0)
                == state {
                assert(entries[last] == entries.last());
            } else {
                assert(state_limits(before).contains_key(state));
                let i = choose|i: int|
                    0 <= i < before.len() && normalized_state((#[trigger] before[i]).0) == state
                        && limit_value(before[i].1) > 0 && state_limits(before)[state]
                        == limit_value(before[i].1) as usize;
                assert(entries[i] == before[i]);
            }
        }
    }
}

/// A workflow file that says nothing of approvals and sandboxes is run with full trust, whatever else
/// it says: approvals are never asked for, and neither threads nor turns are kept in a sandbox. What
/// it does say of them is taken over as it is.
pub proof fn lemma_default_posture(
    path: Seq<char>,
    prompt_template: Seq<char>,
    raw: RawWorkflowConfig,
    env: EnvironmentView,
)
    ensures
        ({
            let asked = raw.codex.unwrap_or(no_codex());
            effective_config(path, prompt_template, raw, env) matches Ok(config) ==> {
                &&& config.codex.approval_policy == match asked.approval_policy {
                    Some(policy) => policy@,
                    None => JsonView::String("never"@),
                }
                &&& config.codex.thread_sandbox == match asked.thread_sandbox {
                    Some(sandbox) => sandbox@,
                    None => JsonView::String("danger-full-access"@),
                }
                &&& match asked.turn_sandbox_policy {
                    Some(policy) => config.codex.turn_sandbox_policy == policy@,
                    None => config.codex.turn_sandbox_policy.member_text("type"@) == Some(
                        "dangerFullAccess"@,
                    ),
                }
            }
        }),
{
}

/// The key of the tracker is the one that is configured, where it names no variable, and else, where
/// none is configured, that of the environment.
pub proof fn lemma_key_comes_from_config_or_environment(raw: RawTracker, env: EnvironmentView)
    ensures
        raw.api_key matches Some(key) && (key@.len() == 0 || key@[0] != '$') ==> tracker_settings(
            raw,
            env,
        ).api_key == raw.api_key->0@,
        raw.api_key is None && (env.var("LINEAR_API_KEY"@) matches Some(key) && !is_blank(key))
            ==> Some(tracker_settings(raw, env).api_key) == env.var("LINEAR_API_KEY"@),
{
}

} // verus!
