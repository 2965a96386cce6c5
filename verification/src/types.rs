//! The data that the parts of the service share.
use vstd::prelude::*;
use vstd::utf8::is_ascii_chars;

use crate::duplicate::Duplicate;
use crate::json::{Json, JsonView};
use crate::string_map::StringMap;
use crate::text::{ascii_lowercase, str_eq, to_lowercase, trim, trimmed, unicode_lowercase};
use crate::time::Timestamp;

verus! {

/// An issue that blocks another, as the tracker relates them.
#[derive(Debug, PartialEq)]
pub struct BlockerRef {
    pub id: Option<String>,
    pub identifier: Option<String>,
    pub state: Option<String>,
}

/// The mathematical value of a [`BlockerRef`].
pub ghost struct BlockerRefView {
    pub id: Option<Seq<char>>,
    pub identifier: Option<Seq<char>>,
    pub state: Option<Seq<char>>,
}

impl View for BlockerRef {
    type V = BlockerRefView;

    open spec fn view(&self) -> BlockerRefView {
        BlockerRefView {
            id: self.id.deep_view(),
            identifier: self.identifier.deep_view(),
            state: self.state.deep_view(),
        }
    }
}

impl DeepView for BlockerRef {
    type V = BlockerRefView;

    open spec fn deep_view(&self) -> BlockerRefView {
        self@
    }
}

impl Clone for BlockerRef {
    fn clone(&self) -> (r: Self)
        ensures
            r@ == self@,
    {
        BlockerRef {
            id: self.id.duplicate(),
            identifier: self.identifier.duplicate(),
            state: self.state.duplicate(),
        }
    }
}

impl Duplicate for BlockerRef {
    fn duplicate(&self) -> (r: Self) {
        self.clone()
    }
}

impl Default for BlockerRef {
    fn default() -> (r: Self)
        ensures
            r@ == no_blocker_ref(),
    {
        let r = BlockerRef {
            id: None,
            identifier: None,
            state: None,
        };
        r
    }
}

/// A blocker with nothing in it.
pub open spec fn no_blocker_ref() -> BlockerRefView {
    BlockerRefView {
        id: None,
        identifier: None,
        state: None,
    }
}

/// An issue in the shape that scheduling, prompts, HTTP output and logs share.
#[derive(Debug, PartialEq)]
pub struct Issue {
    pub id: String,
    pub identifier: String,
    pub title: String,
    pub description: Option<String>,
    pub priority: Option<i64>,
    pub state: String,
    pub branch_name: Option<String>,
    pub url: Option<String>,
    pub labels: Vec<String>,
    pub blocked_by: Vec<BlockerRef>,
    pub created_at: Option<Timestamp>,
    pub updated_at: Option<Timestamp>,
}

/// The mathematical value of a [`Issue`].
pub ghost struct IssueView {
    pub id: Seq<char>,
    pub identifier: Seq<char>,
    pub title: Seq<char>,
    pub description: Option<Seq<char>>,
    pub priority: Option<i64>,
    pub state: Seq<char>,
    pub branch_name: Option<Seq<char>>,
    pub url: Option<Seq<char>>,
    pub labels: Seq<Seq<char>>,
    pub blocked_by: Seq<BlockerRefView>,
    pub created_at: Option<Timestamp>,
    pub updated_at: Option<Timestamp>,
}

impl View for Issue {
    type V = IssueView;

    open spec fn view(&self) -> IssueView {
        IssueView {
            id: self.id@,
            identifier: self.identifier@,
            title: self.title@,
            description: self.description.deep_view(),
            priority: self.priority,
            state: self.state@,
            branch_name: self.branch_name.deep_view(),
            url: self.url.deep_view(),
            labels: self.labels.deep_view(),
            blocked_by: self.blocked_by.deep_view(),
            created_at: self.created_at,
            updated_at: self.updated_at,
        }
    }
}

impl DeepView for Issue {
    type V = IssueView;

    open spec fn deep_view(&self) -> IssueView {
        self@
    }
}

impl Clone for Issue {
    fn clone(&self) -> (r: Self)
        ensures
            r@ == self@,
    {
        Issue {
            id: self.id.clone(),
            identifier: self.identifier.clone(),
            title: self.title.clone(),
            description: self.description.duplicate(),
            priority: self.priority,
            state: self.state.clone(),
            branch_name: self.branch_name.duplicate(),
            url: self.url.duplicate(),
            labels: self.labels.duplicate(),
            blocked_by: self.blocked_by.duplicate(),
            created_at: self.created_at,
            updated_at: self.updated_at,
        }
    }
}

impl Duplicate for Issue {
    fn duplicate(&self) -> (r: Self) {
        self.clone()
    }
}

impl Default for Issue {
    fn default() -> (r: Self)
        ensures
            r@ == no_issue(),
    {
        let r = Issue {
            id: String::new(),
            identifier: String::new(),
            title: String::new(),
            description: None,
            priority: None,
            state: String::new(),
            branch_name: None,
            url: None,
            labels: Vec::new(),
            blocked_by: Vec::new(),
            created_at: None,
            updated_at: None,
        };
        proof {
            assert(r@.id =~= Seq::empty());
            assert(r@.identifier =~= Seq::empty());
            assert(r@.title =~= Seq::empty());
            assert(r@.state =~= Seq::empty());
            assert(r@.labels =~= Seq::empty());
            assert(r@.blocked_by =~= Seq::empty());
        }
        r
    }
}

/// An issue with nothing in it.
pub open spec fn no_issue() -> IssueView {
    IssueView {
        id: Seq::empty(),
        identifier: Seq::empty(),
        title: Seq::empty(),
        description: None,
        priority: None,
        state: Seq::empty(),
        branch_name: None,
        url: None,
        labels: Seq::empty(),
        blocked_by: Seq::empty(),
        created_at: None,
        updated_at: None,
    }
}

/// The contents of a workflow file, split into its front matter and the prompt.
#[derive(Debug, PartialEq)]
pub struct WorkflowDefinition {
    pub config: StringMap<Json>,
    pub prompt_template: String,
}

/// The mathematical value of a [`WorkflowDefinition`].
pub ghost struct WorkflowDefinitionView {
    pub config: Seq<(Seq<char>, JsonView)>,
    pub prompt_template: Seq<char>,
}

impl View for WorkflowDefinition {
    type V = WorkflowDefinitionView;

    open spec fn view(&self) -> WorkflowDefinitionView {
        WorkflowDefinitionView {
            config: self.config.entry_views(),
            prompt_template: self.prompt_template@,
        }
    }
}

impl DeepView for WorkflowDefinition {
    type V = WorkflowDefinitionView;

    open spec fn deep_view(&self) -> WorkflowDefinitionView {
        self@
    }
}

impl Clone for WorkflowDefinition {
    fn clone(&self) -> (r: Self)
        ensures
            r@ == self@,
    {
        WorkflowDefinition {
            config: self.config.duplicate(),
            prompt_template: self.prompt_template.clone(),
        }
    }
}

impl Duplicate for WorkflowDefinition {
    fn duplicate(&self) -> (r: Self) {
        self.clone()
    }
}

impl Default for WorkflowDefinition {
    fn default() -> (r: Self)
        ensures
            r@ == no_workflow_definition(),
    {
        let r = WorkflowDefinition {
            config: StringMap::new(),
            prompt_template: String::new(),
        };
        proof {
            assert(r@.config =~= Seq::empty());
            assert(r@.prompt_template =~= Seq::empty());
        }
        r
    }
}

/// A definition with nothing in it.
pub open spec fn no_workflow_definition() -> WorkflowDefinitionView {
    WorkflowDefinitionView {
        config: Seq::empty(),
        prompt_template: Seq::empty(),
    }
}

/// How the tracker is reached, and which of its states count.
#[derive(Debug, PartialEq)]
pub struct TrackerSettings {
    pub kind: String,
    pub endpoint: String,
    pub api_key: String,
    pub project_slug: String,
    pub active_states: Vec<String>,
    pub terminal_states: Vec<String>,
}

/// The mathematical value of a [`TrackerSettings`].
pub ghost struct TrackerSettingsView {
    pub kind: Seq<char>,
    pub endpoint: Seq<char>,
    pub api_key: Seq<char>,
    pub project_slug: Seq<char>,
    pub active_states: Seq<Seq<char>>,
    pub terminal_states: Seq<Seq<char>>,
}

impl View for TrackerSettings {
    type V = TrackerSettingsView;

    open spec fn view(&self) -> TrackerSettingsView {
        TrackerSettingsView {
            kind: self.kind@,
            endpoint: self.endpoint@,
            api_key: self.api_key@,
            project_slug: self.project_slug@,
            active_states: self.active_states.deep_view(),
            terminal_states: self.terminal_states.deep_view(),
        }
    }
}

impl DeepView for TrackerSettings {
    type V = TrackerSettingsView;

    open spec fn deep_view(&self) -> TrackerSettingsView {
        self@
    }
}

impl Clone for TrackerSettings {
    fn clone(&self) -> (r: Self)
        ensures
            r@ == self@,
    {
        TrackerSettings {
            kind: self.kind.clone(),
            endpoint: self.endpoint.clone(),
            api_key: self.api_key.clone(),
            project_slug: self.project_slug.clone(),
            active_states: self.active_states.duplicate(),
            terminal_states: self.terminal_states.duplicate(),
        }
    }
}

impl Duplicate for TrackerSettings {
    fn duplicate(&self) -> (r: Self) {
        self.clone()
    }
}

/// How often the tracker is polled.
#[derive(Clone, Copy, Debug, PartialEq, Eq)]
pub struct PollingSettings {
    pub interval_ms: u64,
}

impl View for PollingSettings {
    type V = PollingSettings;

    open spec fn view(&self) -> PollingSettings {
        *self
    }
}

impl DeepView for PollingSettings {
    type V = PollingSettings;

    open spec fn deep_view(&self) -> PollingSettings {
        *self
    }
}

/// Where the workspaces of the issues are.
#[derive(Debug, PartialEq)]
pub struct WorkspaceSettings {
    pub root: String,
}

/// The mathematical value of a [`WorkspaceSettings`].
pub ghost struct WorkspaceSettingsView {
    pub root: Seq<char>,
}

impl View for WorkspaceSettings {
    type V = WorkspaceSettingsView;

    open spec fn view(&self) -> WorkspaceSettingsView {
        WorkspaceSettingsView {
            root: self.root@,
        }
    }
}

impl DeepView for WorkspaceSettings {
    type V = WorkspaceSettingsView;

    open spec fn deep_view(&self) -> WorkspaceSettingsView {
        self@
    }
}

impl Clone for WorkspaceSettings {
    fn clone(&self) -> (r: Self)
        ensures
            r@ == self@,
    {
        WorkspaceSettings {
            root: self.root.clone(),
        }
    }
}

impl Duplicate for WorkspaceSettings {
    fn duplicate(&self) -> (r: Self) {
        self.clone()
    }
}

/// Scripts that run around the life of a workspace.
#[derive(Debug, PartialEq)]
pub struct HookSettings {
    pub after_create: Option<String>,
    pub before_run: Option<String>,
    pub after_run: Option<String>,
    pub before_remove: Option<String>,
    pub timeout_ms: u64,
}

/// The mathematical value of a [`HookSettings`].
pub ghost struct HookSettingsView {
    pub after_create: Option<Seq<char>>,
    pub before_run: Option<Seq<char>>,
    pub after_run: Option<Seq<char>>,
    pub before_remove: Option<Seq<char>>,
    pub timeout_ms: u64,
}

impl View for HookSettings {
    type V = HookSettingsView;

    open spec fn view(&self) -> HookSettingsView {
        HookSettingsView {
            after_create: self.after_create.deep_view(),
            before_run: self.before_run.deep_view(),
            after_run: self.after_run.deep_view(),
            before_remove: self.before_remove.deep_view(),
            timeout_ms: self.timeout_ms,
        }
    }
}

impl DeepView for HookSettings {
    type V = HookSettingsView;

    open spec fn deep_view(&self) -> HookSettingsView {
        self@
    }
}

impl Clone for HookSettings {
    fn clone(&self) -> (r: Self)
        ensures
            r@ == self@,
    {
        HookSettings {
            after_create: self.after_create.duplicate(),
            before_run: self.before_run.duplicate(),
            after_run: self.after_run.duplicate(),
            before_remove: self.before_remove.duplicate(),
            timeout_ms: self.timeout_ms,
        }
    }
}

impl Duplicate for HookSettings {
    fn duplicate(&self) -> (r: Self) {
        self.clone()
    }
}

impl Default for HookSettings {
    fn default() -> (r: Self)
        ensures
            r@ == no_hook_settings(),
    {
        let r = HookSettings {
            after_create: None,
            before_run: None,
            after_run: None,
            before_remove: None,
            timeout_ms: 0,
        };
        r
    }
}

/// Settings with nothing in it.
pub open spec fn no_hook_settings() -> HookSettingsView {
    HookSettingsView {
        after_create: None,
        before_run: None,
        after_run: None,
        before_remove: None,
        timeout_ms: 0,
    }
}

/// How many agents run at once, and how failed runs are tried again.
#[derive(Debug, PartialEq)]
pub struct AgentSettings {
    pub max_concurrent_agents: usize,
    pub max_turns: u32,
    pub max_retry_backoff_ms: u64,
    pub max_concurrent_agents_by_state: StringMap<usize>,
}

/// The mathematical value of a [`AgentSettings`].
pub ghost struct AgentSettingsView {
    pub max_concurrent_agents: usize,
    pub max_turns: u32,
    pub max_retry_backoff_ms: u64,
    pub max_concurrent_agents_by_state: Map<Seq<char>, usize>,
}

impl View for AgentSettings {
    type V = AgentSettingsView;

    open spec fn view(&self) -> AgentSettingsView {
        AgentSettingsView {
            max_concurrent_agents: self.max_concurrent_agents,
            max_turns: self.max_turns,
            max_retry_backoff_ms: self.max_retry_backoff_ms,
            max_concurrent_agents_by_state: self.max_concurrent_agents_by_state.deep_view(),
        }
    }
}

impl DeepView for AgentSettings {
    type V = AgentSettingsView;

    open spec fn deep_view(&self) -> AgentSettingsView {
        self@
    }
}

impl Clone for AgentSettings {
    fn clone(&self) -> (r: Self)
        ensures
            r@ == self@,
    {
        AgentSettings {
            max_concurrent_agents: self.max_concurrent_agents,
            max_turns: self.max_turns,
            max_retry_backoff_ms: self.max_retry_backoff_ms,
            max_concurrent_agents_by_state: self.max_concurrent_agents_by_state.duplicate(),
        }
    }
}

impl Duplicate for AgentSettings {
    fn duplicate(&self) -> (r: Self) {
        self.clone()
    }
}

/// How the Codex app-server is started and asked.
#[derive(Debug, PartialEq)]
pub struct CodexSettings {
    pub command: String,
    pub approval_policy: Json,
    pub thread_sandbox: Json,
    pub turn_sandbox_policy: Json,
    pub turn_timeout_ms: u64,
    pub read_timeout_ms: u64,
    pub stall_timeout_ms: i64,
}

/// The mathematical value of a [`CodexSettings`].
pub ghost struct CodexSettingsView {
    pub command: Seq<char>,
    pub approval_policy: JsonView,
    pub thread_sandbox: JsonView,
    pub turn_sandbox_policy: JsonView,
    pub turn_timeout_ms: u64,
    pub read_timeout_ms: u64,
    pub stall_timeout_ms: i64,
}

impl View for CodexSettings {
    type V = CodexSettingsView;

    open spec fn view(&self) -> CodexSettingsView {
        CodexSettingsView {
            command: self.command@,
            approval_policy: self.approval_policy@,
            thread_sandbox: self.thread_sandbox@,
            turn_sandbox_policy: self.turn_sandbox_policy@,
            turn_timeout_ms: self.turn_timeout_ms,
            read_timeout_ms: self.read_timeout_ms,
            stall_timeout_ms: self.stall_timeout_ms,
        }
    }
}

impl DeepView for CodexSettings {
    type V = CodexSettingsView;

    open spec fn deep_view(&self) -> CodexSettingsView {
        self@
    }
}

impl Clone for CodexSettings {
    fn clone(&self) -> (r: Self)
        ensures
            r@ == self@,
    {
        CodexSettings {
            command: self.command.clone(),
            approval_policy: self.approval_policy.duplicate(),
            thread_sandbox: self.thread_sandbox.duplicate(),
            turn_sandbox_policy: self.turn_sandbox_policy.duplicate(),
            turn_timeout_ms: self.turn_timeout_ms,
            read_timeout_ms: self.read_timeout_ms,
            stall_timeout_ms: self.stall_timeout_ms,
        }
    }
}

impl Duplicate for CodexSettings {
    fn duplicate(&self) -> (r: Self) {
        self.clone()
    }
}

/// Where the loopback HTTP server listens, where it is wanted.
#[derive(Clone, Copy, Debug, PartialEq, Eq)]
pub struct ServerSettings {
    pub port: Option<u16>,
}

impl View for ServerSettings {
    type V = ServerSettings;

    open spec fn view(&self) -> ServerSettings {
        *self
    }
}

impl DeepView for ServerSettings {
    type V = ServerSettings;

    open spec fn deep_view(&self) -> ServerSettings {
        *self
    }
}

impl Default for ServerSettings {
    fn default() -> (r: Self)
        ensures
            r == (ServerSettings { port: None }),
    {
        ServerSettings {
            port: None,
        }
    }
}

/// The resolved configuration that the service runs on.
#[derive(Debug, PartialEq)]
pub struct EffectiveConfig {
    pub workflow_path: String,
    pub prompt_template: String,
    pub tracker: TrackerSettings,
    pub polling: PollingSettings,
    pub workspace: WorkspaceSettings,
    pub hooks: HookSettings,
    pub agent: AgentSettings,
    pub codex: CodexSettings,
    pub server: ServerSettings,
}

/// The mathematical value of a [`EffectiveConfig`].
pub ghost struct EffectiveConfigView {
    pub workflow_path: Seq<char>,
    pub prompt_template: Seq<char>,
    pub tracker: TrackerSettingsView,
    pub polling: PollingSettings,
    pub workspace: WorkspaceSettingsView,
    pub hooks: HookSettingsView,
    pub agent: AgentSettingsView,
    pub codex: CodexSettingsView,
    pub server: ServerSettings,
}

impl View for EffectiveConfig {
    type V = EffectiveConfigView;

    open spec fn view(&self) -> EffectiveConfigView {
        EffectiveConfigView {
            workflow_path: self.workflow_path@,
            prompt_template: self.prompt_template@,
            tracker: self.tracker@,
            polling: self.polling,
            workspace: self.workspace@,
            hooks: self.hooks@,
            agent: self.agent@,
            codex: self.codex@,
            server: self.server,
        }
    }
}

impl DeepView for EffectiveConfig {
    type V = EffectiveConfigView;

    open spec fn deep_view(&self) -> EffectiveConfigView {
        self@
    }
}

impl Clone for EffectiveConfig {
    fn clone(&self) -> (r: Self)
        ensures
            r@ == self@,
    {
        EffectiveConfig {
            workflow_path: self.workflow_path.clone(),
            prompt_template: self.prompt_template.clone(),
            tracker: self.tracker.duplicate(),
            polling: self.polling,
            workspace: self.workspace.duplicate(),
            hooks: self.hooks.duplicate(),
            agent: self.agent.duplicate(),
            codex: self.codex.duplicate(),
            server: self.server,
        }
    }
}

impl Duplicate for EffectiveConfig {
    fn duplicate(&self) -> (r: Self) {
        self.clone()
    }
}

/// The directory that one issue is worked on in.
#[derive(Debug, PartialEq)]
pub struct Workspace {
    pub path: String,
    pub workspace_key: String,
    pub created_now: bool,
}

/// The mathematical value of a [`Workspace`].
pub ghost struct WorkspaceView {
    pub path: Seq<char>,
    pub workspace_key: Seq<char>,
    pub created_now: bool,
}

impl View for Workspace {
    type V = WorkspaceView;

    open spec fn view(&self) -> WorkspaceView {
        WorkspaceView {
            path: self.path@,
            workspace_key: self.workspace_key@,
            created_now: self.created_now,
        }
    }
}

impl DeepView for Workspace {
    type V = WorkspaceView;

    open spec fn deep_view(&self) -> WorkspaceView {
        self@
    }
}

impl Clone for Workspace {
    fn clone(&self) -> (r: Self)
        ensures
            r@ == self@,
    {
        Workspace {
            path: self.path.clone(),
            workspace_key: self.workspace_key.clone(),
            created_now: self.created_now,
        }
    }
}

impl Duplicate for Workspace {
    fn duplicate(&self) -> (r: Self) {
        self.clone()
    }
}

/// Token totals, of one session or of all.
#[derive(Clone, Copy, Debug, PartialEq, Eq)]
pub struct TokenUsage {
    pub input_tokens: u64,
    pub output_tokens: u64,
    pub total_tokens: u64,
}

impl View for TokenUsage {
    type V = TokenUsage;

    open spec fn view(&self) -> TokenUsage {
        *self
    }
}

impl DeepView for TokenUsage {
    type V = TokenUsage;

    open spec fn deep_view(&self) -> TokenUsage {
        *self
    }
}

impl Default for TokenUsage {
    fn default() -> (r: Self)
        ensures
            r == (TokenUsage { input_tokens: 0, output_tokens: 0, total_tokens: 0 }),
    {
        TokenUsage {
            input_tokens: 0,
            output_tokens: 0,
            total_tokens: 0,
        }
    }
}

/// A short account of an event, kept for the operator.
#[derive(Debug, PartialEq)]
pub struct RecentEvent {
    pub at: Timestamp,
    pub event: String,
    pub message: String,
}

/// The mathematical value of a [`RecentEvent`].
pub ghost struct RecentEventView {
    pub at: Timestamp,
    pub event: Seq<char>,
    pub message: Seq<char>,
}

impl View for RecentEvent {
    type V = RecentEventView;

    open spec fn view(&self) -> RecentEventView {
        RecentEventView {
            at: self.at,
            event: self.event@,
            message: self.message@,
        }
    }
}

impl DeepView for RecentEvent {
    type V = RecentEventView;

    open spec fn deep_view(&self) -> RecentEventView {
        self@
    }
}

impl Clone for RecentEvent {
    fn clone(&self) -> (r: Self)
        ensures
            r@ == self@,
    {
        RecentEvent {
            at: self.at,
            event: self.event.clone(),
            message: self.message.clone(),
        }
    }
}

impl Duplicate for RecentEvent {
    fn duplicate(&self) -> (r: Self) {
        self.clone()
    }
}

/// What is known of a session while its worker runs.
#[derive(Debug, PartialEq)]
pub struct LiveSession {
    pub session_id: Option<String>,
    pub thread_id: Option<String>,
    pub turn_id: Option<String>,
    pub codex_app_server_pid: Option<String>,
    pub last_codex_event: Option<String>,
    pub last_codex_timestamp: Option<Timestamp>,
    pub last_codex_message: Option<String>,
    pub codex_input_tokens: u64,
    pub codex_output_tokens: u64,
    pub codex_total_tokens: u64,
    pub last_reported_input_tokens: u64,
    pub last_reported_output_tokens: u64,
    pub last_reported_total_tokens: u64,
    pub turn_count: u32,
}

/// The mathematical value of a [`LiveSession`].
pub ghost struct LiveSessionView {
    pub session_id: Option<Seq<char>>,
    pub thread_id: Option<Seq<char>>,
    pub turn_id: Option<Seq<char>>,
    pub codex_app_server_pid: Option<Seq<char>>,
    pub last_codex_event: Option<Seq<char>>,
    pub last_codex_timestamp: Option<Timestamp>,
    pub last_codex_message: Option<Seq<char>>,
    pub codex_input_tokens: u64,
    pub codex_output_tokens: u64,
    pub codex_total_tokens: u64,
    pub last_reported_input_tokens: u64,
    pub last_reported_output_tokens: u64,
    pub last_reported_total_tokens: u64,
    pub turn_count: u32,
}

impl View for LiveSession {
    type V = LiveSessionView;

    open spec fn view(&self) -> LiveSessionView {
        LiveSessionView {
            session_id: self.session_id.deep_view(),
            thread_id: self.thread_id.deep_view(),
            turn_id: self.turn_id.deep_view(),
            codex_app_server_pid: self.codex_app_server_pid.deep_view(),
            last_codex_event: self.last_codex_event.deep_view(),
            last_codex_timestamp: self.last_codex_timestamp,
            last_codex_message: self.last_codex_message.deep_view(),
            codex_input_tokens: self.codex_input_tokens,
            codex_output_tokens: self.codex_output_tokens,
            codex_total_tokens: self.codex_total_tokens,
            last_reported_input_tokens: self.last_reported_input_tokens,
            last_reported_output_tokens: self.last_reported_output_tokens,
            last_reported_total_tokens: self.last_reported_total_tokens,
            turn_count: self.turn_count,
        }
    }
}

impl DeepView for LiveSession {
    type V = LiveSessionView;

    open spec fn deep_view(&self) -> LiveSessionView {
        self@
    }
}

impl Clone for LiveSession {
    fn clone(&self) -> (r: Self)
        ensures
            r@ == self@,
    {
        LiveSession {
            session_id: self.session_id.duplicate(),
            thread_id: self.thread_id.duplicate(),
            turn_id: self.turn_id.duplicate(),
            codex_app_server_pid: self.codex_app_server_pid.duplicate(),
            last_codex_event: self.last_codex_event.duplicate(),
            last_codex_timestamp: self.last_codex_timestamp,
            last_codex_message: self.last_codex_message.duplicate(),
            codex_input_tokens: self.codex_input_tokens,
            codex_output_tokens: self.codex_output_tokens,
            codex_total_tokens: self.codex_total_tokens,
            last_reported_input_tokens: self.last_reported_input_tokens,
            last_reported_output_tokens: self.last_reported_output_tokens,
            last_reported_total_tokens: self.last_reported_total_tokens,
            turn_count: self.turn_count,
        }
    }
}

impl Duplicate for LiveSession {
    fn duplicate(&self) -> (r: Self) {
        self.clone()
    }
}

impl Default for LiveSession {
    fn default() -> (r: Self)
        ensures
            r@ == no_live_session(),
    {
        let r = LiveSession {
            session_id: None,
            thread_id: None,
            turn_id: None,
            codex_app_server_pid: None,
            last_codex_event: None,
            last_codex_timestamp: None,
            last_codex_message: None,
            codex_input_tokens: 0,
            codex_output_tokens: 0,
            codex_total_tokens: 0,
            last_reported_input_tokens: 0,
            last_reported_output_tokens: 0,
            last_reported_total_tokens: 0,
            turn_count: 0,
        };
        r
    }
}

/// A session with nothing in it.
pub open spec fn no_live_session() -> LiveSessionView {
    LiveSessionView {
        session_id: None,
        thread_id: None,
        turn_id: None,
        codex_app_server_pid: None,
        last_codex_event: None,
        last_codex_timestamp: None,
        last_codex_message: None,
        codex_input_tokens: 0,
        codex_output_tokens: 0,
        codex_total_tokens: 0,
        last_reported_input_tokens: 0,
        last_reported_output_tokens: 0,
        last_reported_total_tokens: 0,
        turn_count: 0,
    }
}

/// A run that is to be tried again.
#[derive(Debug, PartialEq)]
pub struct RetryEntry {
    pub issue_id: String,
    pub identifier: String,
    pub attempt: u32,
    pub due_at: Timestamp,
    pub error: Option<String>,
}

/// The mathematical value of a [`RetryEntry`].
pub ghost struct RetryEntryView {
    pub issue_id: Seq<char>,
    pub identifier: Seq<char>,
    pub attempt: u32,
    pub due_at: Timestamp,
    pub error: Option<Seq<char>>,
}

impl View for RetryEntry {
    type V = RetryEntryView;

    open spec fn view(&self) -> RetryEntryView {
        RetryEntryView {
            issue_id: self.issue_id@,
            identifier: self.identifier@,
            attempt: self.attempt,
            due_at: self.due_at,
            error: self.error.deep_view(),
        }
    }
}

impl DeepView for RetryEntry {
    type V = RetryEntryView;

    open spec fn deep_view(&self) -> RetryEntryView {
        self@
    }
}

impl Clone for RetryEntry {
    fn clone(&self) -> (r: Self)
        ensures
            r@ == self@,
    {
        RetryEntry {
            issue_id: self.issue_id.clone(),
            identifier: self.identifier.clone(),
            attempt: self.attempt,
            due_at: self.due_at,
            error: self.error.duplicate(),
        }
    }
}

impl Duplicate for RetryEntry {
    fn duplicate(&self) -> (r: Self) {
        self.clone()
    }
}

/// An issue that a worker is running on.
#[derive(Debug, PartialEq)]
pub struct RunningEntry {
    pub issue_id: String,
    pub issue_identifier: String,
    pub issue: Issue,
    pub workspace_path: String,
    pub retry_attempt: Option<u32>,
    pub started_at: Timestamp,
    pub session: LiveSession,
    pub recent_events: Vec<RecentEvent>,
    pub last_error: Option<String>,
    pub log_path: Option<String>,
}

/// The mathematical value of a [`RunningEntry`].
pub ghost struct RunningEntryView {
    pub issue_id: Seq<char>,
    pub issue_identifier: Seq<char>,
    pub issue: IssueView,
    pub workspace_path: Seq<char>,
    pub retry_attempt: Option<u32>,
    pub started_at: Timestamp,
    pub session: LiveSessionView,
    pub recent_events: Seq<RecentEventView>,
    pub last_error: Option<Seq<char>>,
    pub log_path: Option<Seq<char>>,
}

impl View for RunningEntry {
    type V = RunningEntryView;

    open spec fn view(&self) -> RunningEntryView {
        RunningEntryView {
            issue_id: self.issue_id@,
            issue_identifier: self.issue_identifier@,
            issue: self.issue@,
            workspace_path: self.workspace_path@,
            retry_attempt: self.retry_attempt,
            started_at: self.started_at,
            session: self.session@,
            recent_events: self.recent_events.deep_view(),
            last_error: self.last_error.deep_view(),
            log_path: self.log_path.deep_view(),
        }
    }
}

impl DeepView for RunningEntry {
    type V = RunningEntryView;

    open spec fn deep_view(&self) -> RunningEntryView {
        self@
    }
}

impl Clone for RunningEntry {
    fn clone(&self) -> (r: Self)
        ensures
            r@ == self@,
    {
        RunningEntry {
            issue_id: self.issue_id.clone(),
            issue_identifier: self.issue_identifier.clone(),
            issue: self.issue.duplicate(),
            workspace_path: self.workspace_path.clone(),
            retry_attempt: self.retry_attempt,
            started_at: self.started_at,
            session: self.session.duplicate(),
            recent_events: self.recent_events.duplicate(),
            last_error: self.last_error.duplicate(),
            log_path: self.log_path.duplicate(),
        }
    }
}

impl Duplicate for RunningEntry {
    fn duplicate(&self) -> (r: Self) {
        self.clone()
    }
}

/// Totals over all sessions. Time is counted in milliseconds.
#[derive(Clone, Copy, Debug, PartialEq, Eq)]
pub struct CodexTotals {
    pub input_tokens: u64,
    pub output_tokens: u64,
    pub total_tokens: u64,
    pub millis_running: u64,
}

impl View for CodexTotals {
    type V = CodexTotals;

    open spec fn view(&self) -> CodexTotals {
        *self
    }
}

impl DeepView for CodexTotals {
    type V = CodexTotals;

    open spec fn deep_view(&self) -> CodexTotals {
        *self
    }
}

impl Default for CodexTotals {
    fn default() -> (r: Self)
        ensures
            r == (CodexTotals { input_tokens: 0, output_tokens: 0, total_tokens: 0, millis_running: 0 }),
    {
        CodexTotals {
            input_tokens: 0,
            output_tokens: 0,
            total_tokens: 0,
            millis_running: 0,
        }
    }
}

/// How many issues run and how many wait for a retry.
#[derive(Clone, Copy, Debug, PartialEq, Eq)]
pub struct SnapshotCounts {
    pub running: usize,
    pub retrying: usize,
}

impl View for SnapshotCounts {
    type V = SnapshotCounts;

    open spec fn view(&self) -> SnapshotCounts {
        *self
    }
}

impl DeepView for SnapshotCounts {
    type V = SnapshotCounts;

    open spec fn deep_view(&self) -> SnapshotCounts {
        *self
    }
}

impl Default for SnapshotCounts {
    fn default() -> (r: Self)
        ensures
            r == (SnapshotCounts { running: 0, retrying: 0 }),
    {
        SnapshotCounts {
            running: 0,
            retrying: 0,
        }
    }
}

/// What the state of the service tells of a running issue.
#[derive(Debug, PartialEq)]
pub struct RuntimeRunningRow {
    pub issue_id: String,
    pub issue_identifier: String,
    pub state: String,
    pub session_id: Option<String>,
    pub turn_count: u32,
    pub last_event: Option<String>,
    pub last_message: String,
    pub started_at: Timestamp,
    pub last_event_at: Option<Timestamp>,
    pub tokens: TokenUsage,
}

/// The mathematical value of a [`RuntimeRunningRow`].
pub ghost struct RuntimeRunningRowView {
    pub issue_id: Seq<char>,
    pub issue_identifier: Seq<char>,
    pub state: Seq<char>,
    pub session_id: Option<Seq<char>>,
    pub turn_count: u32,
    pub last_event: Option<Seq<char>>,
    pub last_message: Seq<char>,
    pub started_at: Timestamp,
    pub last_event_at: Option<Timestamp>,
    pub tokens: TokenUsage,
}

impl View for RuntimeRunningRow {
    type V = RuntimeRunningRowView;

    open spec fn view(&self) -> RuntimeRunningRowView {
        RuntimeRunningRowView {
            issue_id: self.issue_id@,
            issue_identifier: self.issue_identifier@,
            state: self.state@,
            session_id: self.session_id.deep_view(),
            turn_count: self.turn_count,
            last_event: self.last_event.deep_view(),
            last_message: self.last_message@,
            started_at: self.started_at,
            last_event_at: self.last_event_at,
            tokens: self.tokens,
        }
    }
}

impl DeepView for RuntimeRunningRow {
    type V = RuntimeRunningRowView;

    open spec fn deep_view(&self) -> RuntimeRunningRowView {
        self@
    }
}

impl Clone for RuntimeRunningRow {
    fn clone(&self) -> (r: Self)
        ensures
            r@ == self@,
    {
        RuntimeRunningRow {
            issue_id: self.issue_id.clone(),
            issue_identifier: self.issue_identifier.clone(),
            state: self.state.clone(),
            session_id: self.session_id.duplicate(),
            turn_count: self.turn_count,
            last_event: self.last_event.duplicate(),
            last_message: self.last_message.clone(),
            started_at: self.started_at,
            last_event_at: self.last_event_at,
            tokens: self.tokens,
        }
    }
}

impl Duplicate for RuntimeRunningRow {
    fn duplicate(&self) -> (r: Self) {
        self.clone()
    }
}

/// The state of the service at one point in time.
#[derive(Debug, PartialEq)]
pub struct RuntimeSnapshot {
    pub generated_at: Timestamp,
    pub counts: SnapshotCounts,
    pub running: Vec<RuntimeRunningRow>,
    pub retrying: Vec<RetryEntry>,
    pub codex_totals: CodexTotals,
    pub rate_limits: Option<Json>,
}

/// The mathematical value of a [`RuntimeSnapshot`].
pub ghost struct RuntimeSnapshotView {
    pub generated_at: Timestamp,
    pub counts: SnapshotCounts,
    pub running: Seq<RuntimeRunningRowView>,
    pub retrying: Seq<RetryEntryView>,
    pub codex_totals: CodexTotals,
    pub rate_limits: Option<JsonView>,
}

impl View for RuntimeSnapshot {
    type V = RuntimeSnapshotView;

    open spec fn view(&self) -> RuntimeSnapshotView {
        RuntimeSnapshotView {
            generated_at: self.generated_at,
            counts: self.counts,
            running: self.running.deep_view(),
            retrying: self.retrying.deep_view(),
            codex_totals: self.codex_totals,
            rate_limits: self.rate_limits.deep_view(),
        }
    }
}

impl DeepView for RuntimeSnapshot {
    type V = RuntimeSnapshotView;

    open spec fn deep_view(&self) -> RuntimeSnapshotView {
        self@
    }
}

impl Clone for RuntimeSnapshot {
    fn clone(&self) -> (r: Self)
        ensures
            r@ == self@,
    {
        RuntimeSnapshot {
            generated_at: self.generated_at,
            counts: self.counts,
            running: self.running.duplicate(),
            retrying: self.retrying.duplicate(),
            codex_totals: self.codex_totals,
            rate_limits: self.rate_limits.duplicate(),
        }
    }
}

impl Duplicate for RuntimeSnapshot {
    fn duplicate(&self) -> (r: Self) {
        self.clone()
    }
}

/// The workspace of an issue, for debugging.
#[derive(Debug, PartialEq)]
pub struct WorkspaceDebugInfo {
    pub path: String,
}

/// The mathematical value of a [`WorkspaceDebugInfo`].
pub ghost struct WorkspaceDebugInfoView {
    pub path: Seq<char>,
}

impl View for WorkspaceDebugInfo {
    type V = WorkspaceDebugInfoView;

    open spec fn view(&self) -> WorkspaceDebugInfoView {
        WorkspaceDebugInfoView {
            path: self.path@,
        }
    }
}

impl DeepView for WorkspaceDebugInfo {
    type V = WorkspaceDebugInfoView;

    open spec fn deep_view(&self) -> WorkspaceDebugInfoView {
        self@
    }
}

impl Clone for WorkspaceDebugInfo {
    fn clone(&self) -> (r: Self)
        ensures
            r@ == self@,
    {
        WorkspaceDebugInfo {
            path: self.path.clone(),
        }
    }
}

impl Duplicate for WorkspaceDebugInfo {
    fn duplicate(&self) -> (r: Self) {
        self.clone()
    }
}

/// The attempts at an issue, for debugging.
#[derive(Clone, Copy, Debug, PartialEq, Eq)]
pub struct AttemptDebugInfo {
    pub restart_count: u32,
    pub current_retry_attempt: Option<u32>,
}

impl View for AttemptDebugInfo {
    type V = AttemptDebugInfo;

    open spec fn view(&self) -> AttemptDebugInfo {
        *self
    }
}

impl DeepView for AttemptDebugInfo {
    type V = AttemptDebugInfo;

    open spec fn deep_view(&self) -> AttemptDebugInfo {
        *self
    }
}

/// Where a log is found.
#[derive(Debug, PartialEq)]
pub struct LogReference {
    pub label: String,
    pub path: String,
    pub url: Option<String>,
}

/// The mathematical value of a [`LogReference`].
pub ghost struct LogReferenceView {
    pub label: Seq<char>,
    pub path: Seq<char>,
    pub url: Option<Seq<char>>,
}

impl View for LogReference {
    type V = LogReferenceView;

    open spec fn view(&self) -> LogReferenceView {
        LogReferenceView {
            label: self.label@,
            path: self.path@,
            url: self.url.deep_view(),
        }
    }
}

impl DeepView for LogReference {
    type V = LogReferenceView;

    open spec fn deep_view(&self) -> LogReferenceView {
        self@
    }
}

impl Clone for LogReference {
    fn clone(&self) -> (r: Self)
        ensures
            r@ == self@,
    {
        LogReference {
            label: self.label.clone(),
            path: self.path.clone(),
            url: self.url.duplicate(),
        }
    }
}

impl Duplicate for LogReference {
    fn duplicate(&self) -> (r: Self) {
        self.clone()
    }
}

/// The logs of an issue, for debugging.
#[derive(Debug, PartialEq)]
pub struct LogDebugInfo {
    pub codex_session_logs: Vec<LogReference>,
}

/// The mathematical value of a [`LogDebugInfo`].
pub ghost struct LogDebugInfoView {
    pub codex_session_logs: Seq<LogReferenceView>,
}

impl View for LogDebugInfo {
    type V = LogDebugInfoView;

    open spec fn view(&self) -> LogDebugInfoView {
        LogDebugInfoView {
            codex_session_logs: self.codex_session_logs.deep_view(),
        }
    }
}

impl DeepView for LogDebugInfo {
    type V = LogDebugInfoView;

    open spec fn deep_view(&self) -> LogDebugInfoView {
        self@
    }
}

impl Clone for LogDebugInfo {
    fn clone(&self) -> (r: Self)
        ensures
            r@ == self@,
    {
        LogDebugInfo {
            codex_session_logs: self.codex_session_logs.duplicate(),
        }
    }
}

impl Duplicate for LogDebugInfo {
    fn duplicate(&self) -> (r: Self) {
        self.clone()
    }
}

impl Default for LogDebugInfo {
    fn default() -> (r: Self)
        ensures
            r@ == no_log_debug_info(),
    {
        let r = LogDebugInfo {
            codex_session_logs: Vec::new(),
        };
        proof {
            assert(r@.codex_session_logs =~= Seq::empty());
        }
        r
    }
}

/// Logs with nothing in it.
pub open spec fn no_log_debug_info() -> LogDebugInfoView {
    LogDebugInfoView {
        codex_session_logs: Seq::empty(),
    }
}

/// The run of an issue, for debugging.
#[derive(Debug, PartialEq)]
pub struct IssueRunningDebugInfo {
    pub session_id: Option<String>,
    pub turn_count: u32,
    pub state: String,
    pub started_at: Timestamp,
    pub last_event: Option<String>,
    pub last_message: String,
    pub last_event_at: Option<Timestamp>,
    pub tokens: TokenUsage,
}

/// The mathematical value of a [`IssueRunningDebugInfo`].
pub ghost struct IssueRunningDebugInfoView {
    pub session_id: Option<Seq<char>>,
    pub turn_count: u32,
    pub state: Seq<char>,
    pub started_at: Timestamp,
    pub last_event: Option<Seq<char>>,
    pub last_message: Seq<char>,
    pub last_event_at: Option<Timestamp>,
    pub tokens: TokenUsage,
}

impl View for IssueRunningDebugInfo {
    type V = IssueRunningDebugInfoView;

    open spec fn view(&self) -> IssueRunningDebugInfoView {
        IssueRunningDebugInfoView {
            session_id: self.session_id.deep_view(),
            turn_count: self.turn_count,
            state: self.state@,
            started_at: self.started_at,
            last_event: self.last_event.deep_view(),
            last_message: self.last_message@,
            last_event_at: self.last_event_at,
            tokens: self.tokens,
        }
    }
}

impl DeepView for IssueRunningDebugInfo {
    type V = IssueRunningDebugInfoView;

    open spec fn deep_view(&self) -> IssueRunningDebugInfoView {
        self@
    }
}

impl Clone for IssueRunningDebugInfo {
    fn clone(&self) -> (r: Self)
        ensures
            r@ == self@,
    {
        IssueRunningDebugInfo {
            session_id: self.session_id.duplicate(),
            turn_count: self.turn_count,
            state: self.state.clone(),
            started_at: self.started_at,
            last_event: self.last_event.duplicate(),
            last_message: self.last_message.clone(),
            last_event_at: self.last_event_at,
            tokens: self.tokens,
        }
    }
}

impl Duplicate for IssueRunningDebugInfo {
    fn duplicate(&self) -> (r: Self) {
        self.clone()
    }
}

/// All that the service tells of one issue.
#[derive(Debug, PartialEq)]
pub struct IssueDebugSnapshot {
    pub issue_identifier: String,
    pub issue_id: String,
    pub status: String,
    pub workspace: WorkspaceDebugInfo,
    pub attempts: AttemptDebugInfo,
    pub running: Option<IssueRunningDebugInfo>,
    pub retry: Option<RetryEntry>,
    pub logs: LogDebugInfo,
    pub recent_events: Vec<RecentEvent>,
    pub last_error: Option<String>,
    pub tracking: StringMap<Json>,
}

/// The mathematical value of a [`IssueDebugSnapshot`].
pub ghost struct IssueDebugSnapshotView {
    pub issue_identifier: Seq<char>,
    pub issue_id: Seq<char>,
    pub status: Seq<char>,
    pub workspace: WorkspaceDebugInfoView,
    pub attempts: AttemptDebugInfo,
    pub running: Option<IssueRunningDebugInfoView>,
    pub retry: Option<RetryEntryView>,
    pub logs: LogDebugInfoView,
    pub recent_events: Seq<RecentEventView>,
    pub last_error: Option<Seq<char>>,
    pub tracking: Seq<(Seq<char>, JsonView)>,
}

impl View for IssueDebugSnapshot {
    type V = IssueDebugSnapshotView;

    open spec fn view(&self) -> IssueDebugSnapshotView {
        IssueDebugSnapshotView {
            issue_identifier: self.issue_identifier@,
            issue_id: self.issue_id@,
            status: self.status@,
            workspace: self.workspace@,
            attempts: self.attempts,
            running: self.running.deep_view(),
            retry: self.retry.deep_view(),
            logs: self.logs@,
            recent_events: self.recent_events.deep_view(),
            last_error: self.last_error.deep_view(),
            tracking: self.tracking.entry_views(),
        }
    }
}

impl DeepView for IssueDebugSnapshot {
    type V = IssueDebugSnapshotView;

    open spec fn deep_view(&self) -> IssueDebugSnapshotView {
        self@
    }
}

impl Clone for IssueDebugSnapshot {
    fn clone(&self) -> (r: Self)
        ensures
            r@ == self@,
    {
        IssueDebugSnapshot {
            issue_identifier: self.issue_identifier.clone(),
            issue_id: self.issue_id.clone(),
            status: self.status.clone(),
            workspace: self.workspace.duplicate(),
            attempts: self.attempts,
            running: self.running.duplicate(),
            retry: self.retry.duplicate(),
            logs: self.logs.duplicate(),
            recent_events: self.recent_events.duplicate(),
            last_error: self.last_error.duplicate(),
            tracking: self.tracking.duplicate(),
        }
    }
}

impl Duplicate for IssueDebugSnapshot {
    fn duplicate(&self) -> (r: Self) {
        self.clone()
    }
}

/// A state with surrounding white space and case taken away.
pub open spec fn normalized_state(state: Seq<char>) -> Seq<char> {
    unicode_lowercase(trimmed(state))
}

/// Some listed state is the same but for case and surrounding white space.
pub open spec fn lists_state(states: Seq<Seq<char>>, state: Seq<char>) -> bool {
    exists|i: int|
        0 <= i < states.len() && normalized_state(#[trigger] states[i]) == normalized_state(state)
}

impl EffectiveConfigView {
    /// The state is one in which issues are worked on.
    pub open spec fn is_active(self, state: Seq<char>) -> bool {
        lists_state(self.tracker.active_states, state)
    }

    /// The state is one in which issues are finished.
    pub open spec fn is_terminal(self, state: Seq<char>) -> bool {
        lists_state(self.tracker.terminal_states, state)
    }
}

/// Whether some listed state is the same but for case and surrounding white space.
fn state_is_listed(states: &Vec<String>, state: &str) -> (r: bool)
    ensures
        r == lists_state(states.deep_view(), state@),
{
    let needle = EffectiveConfig::normalize_state(state);
    let ghost views = states.deep_view();
    for i in 0..states.len()
        invariant
            views == states.deep_view(),
            needle@ == normalized_state(state@),
            forall|j: int| 0 <= j < i ==> normalized_state(#[trigger] views[j]) != needle@,
    {
        let candidate = EffectiveConfig::normalize_state(states[i].as_str());
        if str_eq(candidate.as_str(), needle.as_str()) {
            assert(normalized_state(views[i as int]) == normalized_state(state@));
            return true;
        }
    }
    false
}

impl EffectiveConfig {
    /// A state with surrounding white space and case taken away, for comparison.
    pub fn normalize_state(state: &str) -> (r: String)
        ensures
            r@ == normalized_state(state@),
            is_ascii_chars(trimmed(state@)) ==> r@ == ascii_lowercase(trimmed(state@)),
    {
        to_lowercase(trim(state))
    }

    /// Whether issues in this state are worked on.
    pub fn is_active_state(&self, state: &str) -> (r: bool)
        ensures
            r == self@.is_active(state@),
    {
        state_is_listed(&self.tracker.active_states, state)
    }

    /// Whether issues in this state are finished.
    pub fn is_terminal_state(&self, state: &str) -> (r: bool)
        ensures
            r == self@.is_terminal(state@),
    {
        state_is_listed(&self.tracker.terminal_states, state)
    }
}

/// Two texts that are the same but for surrounding white space and case are the same state: both
/// are active or neither is, and both are terminal or neither is.
pub proof fn lemma_state_ignores_case(config: EffectiveConfigView, a: Seq<char>, b: Seq<char>)
    requires
        normalized_state(a) == normalized_state(b),
    ensures
        config.is_active(a) == config.is_active(b),
        config.is_terminal(a) == config.is_terminal(b),
{
}

} // verus!
