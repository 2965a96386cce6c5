//! The run of a worker on one issue, from its workspace to its outcome.
//!
//! A run is a state that events take further. Each event gives the actions to carry out next, in
//! order; what comes of the last of them is the next event.
use vstd::prelude::*;

use crate::duplicate::Duplicate;
use crate::error::{error_text, ErrorView, SymphonyError};
use crate::protocol::{SessionUpdate, SessionUpdateView};
use crate::types::{EffectiveConfig, EffectiveConfigView, Issue, IssueView, Workspace, WorkspaceView};
use crate::workflow::{continuation_text, continue_issue};
use crate::workspace::{
    log_path, sanitize_issue_identifier, workspace_key, CurrentDir, CurrentDirView, WorkspaceManager,
};

verus! {

// ---------------------------------------------------------------------------
// Outcomes
// ---------------------------------------------------------------------------

/// How a run ended.
#[derive(Clone, Copy, Debug, PartialEq, Eq, Structural)]
pub enum WorkerExit {
    Succeeded,
    Failed,
    TimedOut,
    Canceled,
}

/// What a run came to.
#[derive(Debug, PartialEq)]
pub struct WorkerOutcome {
    pub issue: Issue,
    pub attempt: Option<u32>,
    pub workspace_path: String,
    pub workspace_key: String,
    pub log_path: String,
    pub exit: WorkerExit,
    pub error: Option<String>,
    pub turn_count: u32,
}

/// The mathematical value of a [`WorkerOutcome`].
pub ghost struct WorkerOutcomeView {
    pub issue: IssueView,
    pub attempt: Option<u32>,
    pub workspace_path: Seq<char>,
    pub workspace_key: Seq<char>,
    pub log_path: Seq<char>,
    pub exit: WorkerExit,
    pub error: Option<Seq<char>>,
    pub turn_count: u32,
}

impl View for WorkerOutcome {
    type V = WorkerOutcomeView;

    open spec fn view(&self) -> WorkerOutcomeView {
        WorkerOutcomeView {
            issue: self.issue@,
            attempt: self.attempt,
            workspace_path: self.workspace_path@,
            workspace_key: self.workspace_key@,
            log_path: self.log_path@,
            exit: self.exit,
            error: self.error.deep_view(),
            turn_count: self.turn_count,
        }
    }
}

/// What a worker tells the scheduler.
#[derive(Debug, PartialEq)]
pub enum WorkerEvent {
    Update(SessionUpdate),
    Finished(WorkerOutcome),
}

/// The mathematical value of a [`WorkerEvent`].
pub ghost enum WorkerEventView {
    Update(SessionUpdateView),
    Finished(WorkerOutcomeView),
}

impl View for WorkerEvent {
    type V = WorkerEventView;

    open spec fn view(&self) -> WorkerEventView {
        match *self {
            WorkerEvent::Update(update) => WorkerEventView::Update(update@),
            WorkerEvent::Finished(outcome) => WorkerEventView::Finished(outcome@),
        }
    }
}

// ---------------------------------------------------------------------------
// Events and actions
// ---------------------------------------------------------------------------

/// What a run waits for.
#[derive(Clone, Copy, Debug, PartialEq, Eq, Structural)]
pub enum WorkerPhase {
    EnsuringWorkspace,
    BeforeRun,
    StartingSession,
    RenderingPrompt,
    RunningTurn,
    RefreshingIssue,
    StoppingSession,
    AfterRun,
    Finished,
}

/// What came of the last action of a run.
#[derive(Debug, PartialEq)]
pub enum WorkerInput {
    WorkspaceReady(Workspace),
    WorkspaceFailed(SymphonyError),
    HookSucceeded,
    HookFailed(SymphonyError),
    SessionStarted,
    SessionFailed(SymphonyError),
    PromptReady(String),
    PromptFailed(SymphonyError),
    /// The turn ended, with an error or without, and the worker was canceled by then or was not.
    TurnEnded { error: Option<SymphonyError>, canceled: bool },
    IssueRefreshed(Vec<Issue>),
    RefreshFailed(SymphonyError),
    SessionStopped,
}

/// The mathematical value of a [`WorkerInput`].
pub ghost enum WorkerInputView {
    WorkspaceReady(WorkspaceView),
    WorkspaceFailed(ErrorView),
    HookSucceeded,
    HookFailed(ErrorView),
    SessionStarted,
    SessionFailed(ErrorView),
    PromptReady(Seq<char>),
    PromptFailed(ErrorView),
    TurnEnded { error: Option<ErrorView>, canceled: bool },
    IssueRefreshed(Seq<IssueView>),
    RefreshFailed(ErrorView),
    SessionStopped,
}

impl View for WorkerInput {
    type V = WorkerInputView;

    open spec fn view(&self) -> WorkerInputView {
        match *self {
            WorkerInput::WorkspaceReady(workspace) => WorkerInputView::WorkspaceReady(workspace@),
            WorkerInput::WorkspaceFailed(error) => WorkerInputView::WorkspaceFailed(error@),
            WorkerInput::HookSucceeded => WorkerInputView::HookSucceeded,
            WorkerInput::HookFailed(error) => WorkerInputView::HookFailed(error@),
            WorkerInput::SessionStarted => WorkerInputView::SessionStarted,
            WorkerInput::SessionFailed(error) => WorkerInputView::SessionFailed(error@),
            WorkerInput::PromptReady(prompt) => WorkerInputView::PromptReady(prompt@),
            WorkerInput::PromptFailed(error) => WorkerInputView::PromptFailed(error@),
            WorkerInput::TurnEnded { error, canceled } => WorkerInputView::TurnEnded {
                error: error.deep_view(),
                canceled,
            },
            WorkerInput::IssueRefreshed(issues) => WorkerInputView::IssueRefreshed(
                issues.deep_view(),
            ),
            WorkerInput::RefreshFailed(error) => WorkerInputView::RefreshFailed(error@),
            WorkerInput::SessionStopped => WorkerInputView::SessionStopped,
        }
    }
}

/// What to do next for a run.
#[derive(Debug, PartialEq)]
pub enum WorkerAction {
    /// Create the workspace of the issue, or take it as it is.
    EnsureWorkspace { identifier: String },
    /// Begin a new session log; whether that succeeds does not matter.
    InitializeLog { path: String },
    /// Run the hook that may keep the run from starting.
    RunBeforeRun { script: String, workspace_path: String },
    /// Start a session in the workspace.
    StartSession { workspace_path: String, log_path: String },
    /// Render the first prompt, for the issue and the attempt of the run.
    RenderPrompt,
    /// Run a turn.
    RunTurn { prompt: String, title: String, turn_count: u32 },
    /// Ask the tracker for the issue.
    RefreshIssue { id: String },
    /// Stop the session.
    StopSession,
    /// Run the hook that ends a run, where there is one; whether that succeeds does not matter.
    RunAfterRun { hook: Option<String>, workspace_path: String },
    /// Report the outcome.
    Finish(WorkerOutcome),
}

/// The mathematical value of a [`WorkerAction`].
pub ghost enum WorkerActionView {
    EnsureWorkspace { identifier: Seq<char> },
    InitializeLog { path: Seq<char> },
    RunBeforeRun { script: Seq<char>, workspace_path: Seq<char> },
    StartSession { workspace_path: Seq<char>, log_path: Seq<char> },
    RenderPrompt,
    RunTurn { prompt: Seq<char>, title: Seq<char>, turn_count: u32 },
    RefreshIssue { id: Seq<char> },
    StopSession,
    RunAfterRun { hook: Option<Seq<char>>, workspace_path: Seq<char> },
    Finish(WorkerOutcomeView),
}

impl View for WorkerAction {
    type V = WorkerActionView;

    open spec fn view(&self) -> WorkerActionView {
        match *self {
            WorkerAction::EnsureWorkspace { identifier } => WorkerActionView::EnsureWorkspace {
                identifier: identifier@,
            },
            WorkerAction::InitializeLog { path } => WorkerActionView::InitializeLog { path: path@ },
            WorkerAction::RunBeforeRun { script, workspace_path } =>
                WorkerActionView::RunBeforeRun {
                script: script@,
                workspace_path: workspace_path@,
            },
            WorkerAction::StartSession { workspace_path, log_path } =>
                WorkerActionView::StartSession {
                workspace_path: workspace_path@,
                log_path: log_path@,
            },
            WorkerAction::RenderPrompt => WorkerActionView::RenderPrompt,
            WorkerAction::RunTurn { prompt, title, turn_count } => WorkerActionView::RunTurn {
                prompt: prompt@,
                title: title@,
                turn_count,
            },
            WorkerAction::RefreshIssue { id } => WorkerActionView::RefreshIssue { id: id@ },
            WorkerAction::StopSession => WorkerActionView::StopSession,
            WorkerAction::RunAfterRun { hook, workspace_path } => WorkerActionView::RunAfterRun {
                hook: hook.deep_view(),
                workspace_path: workspace_path@,
            },
            WorkerAction::Finish(outcome) => WorkerActionView::Finish(outcome@),
        }
    }
}

impl DeepView for WorkerAction {
    type V = WorkerActionView;

    open spec fn deep_view(&self) -> WorkerActionView {
        self@
    }
}

// ---------------------------------------------------------------------------
// Runs
// ---------------------------------------------------------------------------

/// The run of a worker on one issue.
pub struct WorkerRun {
    pub config: EffectiveConfig,
    pub issue: Issue,
    pub attempt: Option<u32>,
    pub workspace_path: String,
    pub workspace_key: String,
    pub log_path: String,
    pub turn_count: u32,
    pub exit: WorkerExit,
    pub error: Option<String>,
    pub phase: WorkerPhase,
}

/// The mathematical value of a [`WorkerRun`].
pub ghost struct WorkerRunView {
    pub config: EffectiveConfigView,
    pub issue: IssueView,
    pub attempt: Option<u32>,
    pub workspace_path: Seq<char>,
    pub workspace_key: Seq<char>,
    pub log_path: Seq<char>,
    pub turn_count: u32,
    pub exit: WorkerExit,
    pub error: Option<Seq<char>>,
    pub phase: WorkerPhase,
}

impl View for WorkerRun {
    type V = WorkerRunView;

    open spec fn view(&self) -> WorkerRunView {
        WorkerRunView {
            config: self.config@,
            issue: self.issue@,
            attempt: self.attempt,
            workspace_path: self.workspace_path@,
            workspace_key: self.workspace_key@,
            log_path: self.log_path@,
            turn_count: self.turn_count,
            exit: self.exit,
            error: self.error.deep_view(),
            phase: self.phase,
        }
    }
}

/// The path of the session log, or another where it cannot be told.
pub open spec fn log_path_or(
    current_dir: CurrentDirView,
    root: Seq<char>,
    key: Seq<char>,
    otherwise: Seq<char>,
) -> Seq<char> {
    match log_path(current_dir, root, key) {
        Ok(path) => path,
        Err(_) => otherwise,
    }
}

impl WorkerRunView {
    /// What the run has come to.
    pub open spec fn outcome(self) -> WorkerOutcomeView {
        WorkerOutcomeView {
            issue: self.issue,
            attempt: self.attempt,
            workspace_path: self.workspace_path,
            workspace_key: self.workspace_key,
            log_path: self.log_path,
            exit: self.exit,
            error: self.error,
            turn_count: self.turn_count,
        }
    }

    /// The run in another phase.
    pub open spec fn in_phase(self, phase: WorkerPhase) -> WorkerRunView {
        WorkerRunView { phase, ..self }
    }

    /// The run, ended in this way.
    pub open spec fn ended(self, exit: WorkerExit, error: Seq<char>) -> WorkerRunView {
        WorkerRunView { exit, error: Some(error), ..self }
    }

    /// The title of a turn.
    pub open spec fn title(self) -> Seq<char> {
        self.issue.identifier + ": "@ + self.issue.title
    }

    /// The run is over, and its outcome is reported.
    pub open spec fn finishing(self) -> (WorkerRunView, Seq<WorkerActionView>) {
        (self.in_phase(WorkerPhase::Finished), seq![WorkerActionView::Finish(self.outcome())])
    }

    /// The session is stopped.
    pub open spec fn stopping(self) -> (WorkerRunView, Seq<WorkerActionView>) {
        (self.in_phase(WorkerPhase::StoppingSession), seq![WorkerActionView::StopSession])
    }

    /// The hook that ends a run is run.
    pub open spec fn wrapping_up(self) -> (WorkerRunView, Seq<WorkerActionView>) {
        (
            self.in_phase(WorkerPhase::AfterRun),
            seq![
                WorkerActionView::RunAfterRun {
                    hook: self.config.hooks.after_run,
                    workspace_path: self.workspace_path,
                },
            ],
        )
    }

    /// What starts the session.
    pub open spec fn session_start(self) -> WorkerActionView {
        WorkerActionView::StartSession {
            workspace_path: self.workspace_path,
            log_path: self.log_path,
        }
    }

    /// The run has its workspace: a new log is begun, and then the hook is run or the session
    /// started.
    pub open spec fn with_workspace(self, workspace: WorkspaceView, current_dir: CurrentDirView) -> (
        WorkerRunView,
        Seq<WorkerActionView>,
    ) {
        let run = WorkerRunView {
            workspace_path: workspace.path,
            workspace_key: workspace.workspace_key,
            log_path: log_path_or(
                current_dir,
                self.config.workspace.root,
                workspace.workspace_key,
                self.log_path,
            ),
            ..self
        };
        let begin_log = WorkerActionView::InitializeLog { path: run.log_path };
        match run.config.hooks.before_run {
            Some(script) => (
                run.in_phase(WorkerPhase::BeforeRun),
                seq![
                    begin_log,
                    WorkerActionView::RunBeforeRun { script, workspace_path: run.workspace_path },
                ],
            ),
            None => (
                run.in_phase(WorkerPhase::StartingSession),
                seq![begin_log, run.session_start()],
            ),
        }
    }

    /// A turn has ended. An error ends the run; which way, depends on whether it was canceled and
    /// whether the turn took too long. Without an error only cancelation does.
    pub open spec fn after_turn(self, error: Option<ErrorView>, canceled: bool) -> (
        WorkerRunView,
        Seq<WorkerActionView>,
    ) {
        match error {
            Some(error) => self.ended(
                if canceled {
                    WorkerExit::Canceled
                } else if error is TurnTimeout {
                    WorkerExit::TimedOut
                } else {
                    WorkerExit::Failed
                },
                error_text(error),
            ).stopping(),
            None => if canceled {
                self.ended(WorkerExit::Canceled, "worker canceled"@).stopping()
            } else {
                (
                    self.in_phase(WorkerPhase::RefreshingIssue),
                    seq![WorkerActionView::RefreshIssue { id: self.issue.id }],
                )
            },
        }
    }

    /// The issue as the tracker has it now. The run goes on with another turn while the issue is
    /// active and there are turns left.
    pub open spec fn after_refresh(self, issues: Seq<IssueView>) -> (
        WorkerRunView,
        Seq<WorkerActionView>,
    ) {
        let run = WorkerRunView {
            issue: if issues.len() > 0 {
                issues.last()
            } else {
                self.issue
            },
            ..self
        };
        if !run.config.is_active(run.issue.state) || run.turn_count >= run.config.agent.max_turns {
            run.stopping()
        } else {
            let next = WorkerRunView {
                turn_count: (run.turn_count + 1) as u32,
                phase: WorkerPhase::RunningTurn,
                ..run
            };
            (
                next,
                seq![
                    WorkerActionView::RunTurn {
                        prompt: continuation_text(
                            next.issue,
                            next.turn_count,
                            next.config.agent.max_turns,
                            next.attempt,
                        ),
                        title: next.title(),
                        turn_count: next.turn_count,
                    },
                ],
            )
        }
    }
}

/// The run, one event further, and what to do next. An event that the run does not wait for changes
/// nothing.
pub open spec fn worker_step(
    run: WorkerRunView,
    input: WorkerInputView,
    current_dir: CurrentDirView,
) -> (WorkerRunView, Seq<WorkerActionView>) {
    match (run.phase, input) {
        (WorkerPhase::EnsuringWorkspace, WorkerInputView::WorkspaceReady(workspace)) =>
            run.with_workspace(workspace, current_dir),
        (WorkerPhase::EnsuringWorkspace, WorkerInputView::WorkspaceFailed(error)) => run.ended(
            WorkerExit::Failed,
            error_text(error),
        ).finishing(),
        (WorkerPhase::BeforeRun, WorkerInputView::HookSucceeded) => (
            run.in_phase(WorkerPhase::StartingSession),
            seq![run.session_start()],
        ),
        (WorkerPhase::BeforeRun, WorkerInputView::HookFailed(error)) => run.ended(
            WorkerExit::Failed,
            error_text(error),
        ).finishing(),
        (WorkerPhase::StartingSession, WorkerInputView::SessionStarted) => (
            WorkerRunView { turn_count: 1, phase: WorkerPhase::RenderingPrompt, ..run },
            seq![WorkerActionView::RenderPrompt],
        ),
        (WorkerPhase::StartingSession, WorkerInputView::SessionFailed(error)) => run.ended(
            WorkerExit::Failed,
            error_text(error),
        ).wrapping_up(),
        (WorkerPhase::RenderingPrompt, WorkerInputView::PromptReady(prompt)) => (
            run.in_phase(WorkerPhase::RunningTurn),
            seq![
                WorkerActionView::RunTurn {
                    prompt,
                    title: run.title(),
                    turn_count: run.turn_count,
                },
            ],
        ),
        (WorkerPhase::RenderingPrompt, WorkerInputView::PromptFailed(error)) => run.ended(
            WorkerExit::Failed,
            error_text(error),
        ).stopping(),
        (WorkerPhase::RunningTurn, WorkerInputView::TurnEnded { error, canceled }) =>
            run.after_turn(error, canceled),
        (WorkerPhase::RefreshingIssue, WorkerInputView::IssueRefreshed(issues)) =>
            run.after_refresh(issues),
        (WorkerPhase::RefreshingIssue, WorkerInputView::RefreshFailed(error)) => run.ended(
            WorkerExit::Failed,
            error_text(error),
        ).stopping(),
        (WorkerPhase::StoppingSession, WorkerInputView::SessionStopped) => run.wrapping_up(),
        (WorkerPhase::AfterRun, WorkerInputView::HookSucceeded) => run.finishing(),
        (WorkerPhase::AfterRun, WorkerInputView::HookFailed(_)) => run.finishing(),
        _ => (run, seq![]),
    }
}

/// A run that has not begun.
pub open spec fn new_run(
    config: EffectiveConfigView,
    issue: IssueView,
    attempt: Option<u32>,
    current_dir: CurrentDirView,
) -> WorkerRunView {
    let key = workspace_key(issue.identifier);
    WorkerRunView {
        config,
        issue,
        attempt,
        workspace_path: config.workspace.root,
        workspace_key: key,
        log_path: log_path_or(current_dir, config.workspace.root, key, "latest.log"@),
        turn_count: 0,
        exit: WorkerExit::Succeeded,
        error: None,
        phase: WorkerPhase::EnsuringWorkspace,
    }
}

fn one_action(action: WorkerAction) -> (r: Vec<WorkerAction>)
    ensures
        r.deep_view() == seq![action@],
{
    let ghost view = action@;
    let mut r: Vec<WorkerAction> = Vec::new();
    r.push(action);
    proof {
        assert(r.deep_view() =~= seq![view]);
    }
    r
}

fn choose_log_path(root: &str, key: &str, otherwise: &str, current_dir: &CurrentDir) -> (r: String)
    ensures
        r@ == log_path_or(current_dir@, root@, key@, otherwise@),
{
    match WorkspaceManager.session_log_path(root, key, current_dir) {
        Ok(path) => path,
        Err(_) => otherwise.to_owned(),
    }
}

impl WorkerRun {
    /// A run that has not begun, and what to do first.
    pub fn begin(
        config: EffectiveConfig,
        issue: Issue,
        attempt: Option<u32>,
        current_dir: &CurrentDir,
    ) -> (r: (WorkerRun, WorkerAction))
        ensures
            r.0@ == new_run(config@, issue@, attempt, current_dir@),
            r.1@ == (WorkerActionView::EnsureWorkspace { identifier: issue@.identifier }),
    {
        let workspace_key = sanitize_issue_identifier(issue.identifier.as_str());
        let log_path = choose_log_path(
            config.workspace.root.as_str(),
            workspace_key.as_str(),
            "latest.log",
            current_dir,
        );
        let workspace_path = config.workspace.root.clone();
        let action = WorkerAction::EnsureWorkspace { identifier: issue.identifier.clone() };
        (
            WorkerRun {
                config,
                issue,
                attempt,
                workspace_path,
                workspace_key,
                log_path,
                turn_count: 0,
                exit: WorkerExit::Succeeded,
                error: None,
                phase: WorkerPhase::EnsuringWorkspace,
            },
            action,
        )
    }

    /// What the run has come to.
    pub fn outcome(&self) -> (r: WorkerOutcome)
        ensures
            r@ == self@.outcome(),
    {
        WorkerOutcome {
            issue: self.issue.clone(),
            attempt: self.attempt,
            workspace_path: self.workspace_path.clone(),
            workspace_key: self.workspace_key.clone(),
            log_path: self.log_path.clone(),
            exit: self.exit,
            error: self.error.duplicate(),
            turn_count: self.turn_count,
        }
    }

    fn title(&self) -> (r: String)
        ensures
            r@ == self@.title(),
    {
        let mut r = self.issue.identifier.clone();
        r.append(": ");
        r.append(self.issue.title.as_str());
        r
    }

    fn end(&mut self, exit: WorkerExit, error: String)
        ensures
            final(self)@ == old(self)@.ended(exit, error@),
    {
        self.exit = exit;
        self.error = Some(error);
    }

    fn finish(&mut self) -> (r: Vec<WorkerAction>)
        ensures
            (final(self)@, r.deep_view()) == old(self)@.finishing(),
    {
        let outcome = self.outcome();
        self.phase = WorkerPhase::Finished;
        one_action(WorkerAction::Finish(outcome))
    }

    fn stop(&mut self) -> (r: Vec<WorkerAction>)
        ensures
            (final(self)@, r.deep_view()) == old(self)@.stopping(),
    {
        self.phase = WorkerPhase::StoppingSession;
        one_action(WorkerAction::StopSession)
    }

    fn wrap_up(&mut self) -> (r: Vec<WorkerAction>)
        ensures
            (final(self)@, r.deep_view()) == old(self)@.wrapping_up(),
    {
        self.phase = WorkerPhase::AfterRun;
        one_action(
            WorkerAction::RunAfterRun {
                hook: self.config.hooks.after_run.duplicate(),
                workspace_path: self.workspace_path.clone(),
            },
        )
    }

    fn session_start(&self) -> (r: WorkerAction)
        ensures
            r@ == self@.session_start(),
    {
        WorkerAction::StartSession {
            workspace_path: self.workspace_path.clone(),
            log_path: self.log_path.clone(),
        }
    }

    fn take_workspace(&mut self, workspace: Workspace, current_dir: &CurrentDir) -> (r: Vec<
        WorkerAction,
    >)
        ensures
            (final(self)@, r.deep_view()) == old(self)@.with_workspace(workspace@, current_dir@),
    {
        let log_path = choose_log_path(
            self.config.workspace.root.as_str(),
            workspace.workspace_key.as_str(),
            self.log_path.as_str(),
            current_dir,
        );
        self.workspace_path = workspace.path;
        self.workspace_key = workspace.workspace_key;
        self.log_path = log_path;
        let mut r = one_action(WorkerAction::InitializeLog { path: self.log_path.clone() });
        let ghost before = r.deep_view();
        match self.config.hooks.before_run.duplicate() {
            Some(script) => {
                self.phase = WorkerPhase::BeforeRun;
                r.push(
                    WorkerAction::RunBeforeRun {
                        script,
                        workspace_path: self.workspace_path.clone(),
                    },
                );
            },
            None => {
                self.phase = WorkerPhase::StartingSession;
                r.push(self.session_start());
            },
        }
        proof {
            assert(r.deep_view() =~= before.push(r@.last()@));
            assert(r.deep_view() =~= old(self)@.with_workspace(workspace@, current_dir@).1);
        }
        r
    }

    fn take_turn(&mut self, error: Option<SymphonyError>, canceled: bool) -> (r: Vec<WorkerAction>)
        ensures
            (final(self)@, r.deep_view()) == old(self)@.after_turn(error.deep_view(), canceled),
    {
        match error {
            Some(error) => {
                let exit = if canceled {
                    WorkerExit::Canceled
                } else {
                    match &error {
                        SymphonyError::TurnTimeout => WorkerExit::TimedOut,
                        _ => WorkerExit::Failed,
                    }
                };
                self.end(exit, error.to_string());
                self.stop()
            },
            None => if canceled {
                self.end(WorkerExit::Canceled, "worker canceled".to_owned());
                self.stop()
            } else {
                self.phase = WorkerPhase::RefreshingIssue;
                one_action(WorkerAction::RefreshIssue { id: self.issue.id.clone() })
            },
        }
    }

    fn take_issue(&mut self, issues: Vec<Issue>) -> (r: Vec<WorkerAction>)
        ensures
            (final(self)@, r.deep_view()) == old(self)@.after_refresh(issues.deep_view()),
    {
        let ghost views = issues.deep_view();
        let mut issues = issues;
        match issues.pop() {
            Some(issue) => {
                proof {
                    assert(views.last() == issue@);
                }
                self.issue = issue;
            },
            None => {},
        }
        if !self.config.is_active_state(self.issue.state.as_str()) || self.turn_count
            >= self.config.agent.max_turns {
            return self.stop();
        }
        self.turn_count = self.turn_count + 1;
        self.phase = WorkerPhase::RunningTurn;
        let prompt = continue_issue(
            &self.issue,
            self.turn_count,
            self.config.agent.max_turns,
            self.attempt,
        );
        one_action(
            WorkerAction::RunTurn { prompt, title: self.title(), turn_count: self.turn_count },
        )
    }

    /// Take the run one event further.
    pub fn advance(&mut self, input: WorkerInput, current_dir: &CurrentDir) -> (r: Vec<
        WorkerAction,
    >)
        ensures
            (final(self)@, r.deep_view()) == worker_step(old(self)@, input@, current_dir@),
    {
        match (self.phase, input) {
            (WorkerPhase::EnsuringWorkspace, WorkerInput::WorkspaceReady(workspace)) =>
                self.take_workspace(workspace, current_dir),
            (WorkerPhase::EnsuringWorkspace, WorkerInput::WorkspaceFailed(error)) => {
                self.end(WorkerExit::Failed, error.to_string());
                self.finish()
            },
            (WorkerPhase::BeforeRun, WorkerInput::HookSucceeded) => {
                self.phase = WorkerPhase::StartingSession;
                one_action(self.session_start())
            },
            (WorkerPhase::BeforeRun, WorkerInput::HookFailed(error)) => {
                self.end(WorkerExit::Failed, error.to_string());
                self.finish()
            },
            (WorkerPhase::StartingSession, WorkerInput::SessionStarted) => {
                self.turn_count = 1;
                self.phase = WorkerPhase::RenderingPrompt;
                one_action(WorkerAction::RenderPrompt)
            },
            (WorkerPhase::StartingSession, WorkerInput::SessionFailed(error)) => {
                self.end(WorkerExit::Failed, error.to_string());
                self.wrap_up()
            },
            (WorkerPhase::RenderingPrompt, WorkerInput::PromptReady(prompt)) => {
                self.phase = WorkerPhase::RunningTurn;
                one_action(
                    WorkerAction::RunTurn {
                        prompt,
                        title: self.title(),
                        turn_count: self.turn_count,
                    },
                )
            },
            (WorkerPhase::RenderingPrompt, WorkerInput::PromptFailed(error)) => {
                self.end(WorkerExit::Failed, error.to_string());
                self.stop()
            },
            (WorkerPhase::RunningTurn, WorkerInput::TurnEnded { error, canceled }) =>
                self.take_turn(error, canceled),
            (WorkerPhase::RefreshingIssue, WorkerInput::IssueRefreshed(issues)) =>
                self.take_issue(issues),
            (WorkerPhase::RefreshingIssue, WorkerInput::RefreshFailed(error)) => {
                self.end(WorkerExit::Failed, error.to_string());
                self.stop()
            },
            (WorkerPhase::StoppingSession, WorkerInput::SessionStopped) => self.wrap_up(),
            (WorkerPhase::AfterRun, WorkerInput::HookSucceeded) => self.finish(),
            (WorkerPhase::AfterRun, WorkerInput::HookFailed(_)) => self.finish(),
            _ => {
                let r: Vec<WorkerAction> = Vec::new();
                proof {
                    assert(r.deep_view() =~= seq![]);
                }
                r
            },
        }
    }
}

// ---------------------------------------------------------------------------
// Laws
// ---------------------------------------------------------------------------

/// The most turns that a run can have: the first is always begun.
pub open spec fn turn_bound(config: EffectiveConfigView) -> u32 {
    if config.agent.max_turns == 0 {
        1
    } else {
        config.agent.max_turns
    }
}

/// What holds of every run at every point.
pub open spec fn is_consistent(run: WorkerRunView) -> bool {
    &&& run.turn_count <= turn_bound(run.config)
    &&& (run.exit == WorkerExit::Succeeded) == (run.error is None)
    &&& match run.phase {
        WorkerPhase::EnsuringWorkspace | WorkerPhase::BeforeRun | WorkerPhase::StartingSession => {
            run.turn_count == 0 && run.exit == WorkerExit::Succeeded
        },
        WorkerPhase::RenderingPrompt => run.turn_count == 1 && run.exit == WorkerExit::Succeeded,
        WorkerPhase::RunningTurn | WorkerPhase::RefreshingIssue => {
            run.turn_count >= 1 && run.exit == WorkerExit::Succeeded
        },
        WorkerPhase::StoppingSession => run.turn_count >= 1 && stops_rightly(run),
        WorkerPhase::AfterRun | WorkerPhase::Finished => stops_rightly(run),
    }
}

/// A run that ends without an error has had its turns, or its issue is no longer active.
pub open spec fn stops_rightly(run: WorkerRunView) -> bool {
    run.exit == WorkerExit::Succeeded ==> run.turn_count >= 1 && (!run.config.is_active(
        run.issue.state,
    ) || run.turn_count >= run.config.agent.max_turns)
}

/// A run begins consistent.
pub proof fn lemma_new_run_is_consistent(
    config: EffectiveConfigView,
    issue: IssueView,
    attempt: Option<u32>,
    current_dir: CurrentDirView,
)
    ensures
        is_consistent(new_run(config, issue, attempt, current_dir)),
{
}

/// Every event keeps a run consistent, with its configuration and its attempt. So no run has more
/// turns than it may, a run that succeeded tells of no error and every other does, and a run succeeds
/// only when its turns are used up or its issue is no longer active.
pub proof fn lemma_worker_step_is_consistent(
    run: WorkerRunView,
    input: WorkerInputView,
    current_dir: CurrentDirView,
)
    requires
        is_consistent(run),
    ensures
        is_consistent(worker_step(run, input, current_dir).0),
        worker_step(run, input, current_dir).0.config == run.config,
        worker_step(run, input, current_dir).0.attempt == run.attempt,
{
}

/// A run after a list of events, each with the current directory at its time.
pub open spec fn worked(run: WorkerRunView, events: Seq<(WorkerInputView, CurrentDirView)>) ->
    WorkerRunView
    decreases events.len(),
{
    if events.len() == 0 {
        run
    } else {
        let before = worked(run, events.drop_last());
        worker_step(before, events.last().0, events.last().1).0
    }
}

/// Every run is consistent at every point, whatever happens to it.
pub proof fn lemma_every_run_is_consistent(
    config: EffectiveConfigView,
    issue: IssueView,
    attempt: Option<u32>,
    current_dir: CurrentDirView,
    events: Seq<(WorkerInputView, CurrentDirView)>,
)
    ensures
        ({
            let run = worked(new_run(config, issue, attempt, current_dir), events);
            is_consistent(run) && run.config == config && run.attempt == attempt
        }),
    decreases events.len(),
{
    if events.len() == 0 {
        lemma_new_run_is_consistent(config, issue, attempt, current_dir);
    } else {
        lemma_every_run_is_consistent(config, issue, attempt, current_dir, events.drop_last());
        lemma_worker_step_is_consistent(
            worked(new_run(config, issue, attempt, current_dir), events.drop_last()),
            events.last().0,
            events.last().1,
        );
    }
}

/// A session of the run is under way.
pub open spec fn has_session(phase: WorkerPhase) -> bool {
    phase == WorkerPhase::RenderingPrompt || phase == WorkerPhase::RunningTurn || phase
        == WorkerPhase::RefreshingIssue
}

/// A session that was started is stopped before anything else ends the run, and turns run in a session
/// only.
pub proof fn lemma_session_is_stopped(
    run: WorkerRunView,
    input: WorkerInputView,
    current_dir: CurrentDirView,
)
    ensures
        ({
            let (after, actions) = worker_step(run, input, current_dir);
            &&& has_session(run.phase) && !has_session(after.phase) ==> after.phase
                == WorkerPhase::StoppingSession && actions == seq![WorkerActionView::StopSession]
            &&& has_session(after.phase) && !has_session(run.phase) ==> run.phase
                == WorkerPhase::StartingSession && input is SessionStarted
            &&& run.phase == WorkerPhase::StoppingSession && after.phase != run.phase ==> input
                is SessionStopped && after.phase == WorkerPhase::AfterRun
            &&& forall|i: int|
                0 <= i < actions.len() && (#[trigger] actions[i]) is RunTurn ==> has_session(
                    run.phase,
                )
        }),
{
}

/// The outcome of a run is reported at its end and nowhere else, and is what the run has come to. It
/// comes after the hook that ends a run, unless no workspace was had or the first hook kept the run
/// from starting.
pub proof fn lemma_outcome_comes_last(
    run: WorkerRunView,
    input: WorkerInputView,
    current_dir: CurrentDirView,
)
    ensures
        ({
            let (after, actions) = worker_step(run, input, current_dir);
            forall|i: int|
                0 <= i < actions.len() && (#[trigger] actions[i]) is Finish ==> {
                    &&& i == actions.len() - 1
                    &&& actions[i]->Finish_0 == after.outcome()
                    &&& after.phase == WorkerPhase::Finished
                    &&& run.phase != WorkerPhase::Finished
                    &&& run.phase == WorkerPhase::AfterRun || (run.phase
                        == WorkerPhase::EnsuringWorkspace && input is WorkspaceFailed) || (run.phase
                        == WorkerPhase::BeforeRun && input is HookFailed)
                }
        }),
{
}

/// A run that is over stays as it is.
pub proof fn lemma_finished_run_rests(
    run: WorkerRunView,
    input: WorkerInputView,
    current_dir: CurrentDirView,
)
    requires
        run.phase == WorkerPhase::Finished,
    ensures
        worker_step(run, input, current_dir) == (run, Seq::<WorkerActionView>::empty()),
{
}

/// Turns are numbered one after the other, beginning with one.
pub proof fn lemma_turns_are_counted(
    run: WorkerRunView,
    input: WorkerInputView,
    current_dir: CurrentDirView,
)
    requires
        is_consistent(run),
    ensures
        ({
            let (after, actions) = worker_step(run, input, current_dir);
            forall|i: int|
                0 <= i < actions.len() ==> match #[trigger] actions[i] {
                    WorkerActionView::RunTurn { turn_count, .. } => {
                        &&& turn_count == after.turn_count
                        &&& run.phase == WorkerPhase::RenderingPrompt ==> turn_count == 1
                        &&& run.phase != WorkerPhase::RenderingPrompt ==> turn_count
                            == run.turn_count + 1
                    },
                    _ => true,
                }
        }),
{
}

} // verus!
