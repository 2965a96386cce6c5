//! The scheduler: which issues are worked on, and what becomes of their runs.
//!
//! The state changes by events; each gives the effects to carry out, in order.
use vstd::arithmetic::power2::{lemma_pow2_strictly_increases, lemma_pow2_unfold, pow2};
use vstd::prelude::*;

use crate::error::{error_text, ErrorView, SymphonyError};
use crate::json::{Json, JsonView};
use crate::path::{join_path, path_join};
use crate::protocol::{SessionUpdate, SessionUpdateView};
use crate::queue::{dispatch_order, sort_issues_for_dispatch};
use crate::string_map::{
    keys_differ, lemma_count, lemma_deep_insert, lemma_deep_remove, map_of, StringMap, StringSet,
};
use crate::text::str_eq;
use crate::time::{chrono_after_millis, chrono_millis_between, Timestamp};
use crate::tracker::select_tracker;
use crate::types::{
    no_live_session, normalized_state, BlockerRef, BlockerRefView, CodexTotals, EffectiveConfig,
    EffectiveConfigView, Issue, IssueView, LiveSession, LiveSessionView, RecentEvent, RecentEventView,
    RetryEntry, RetryEntryView, RunningEntry, RunningEntryView, TokenUsage,
};
use crate::worker::{WorkerEvent, WorkerEventView, WorkerExit, WorkerOutcome, WorkerOutcomeView};
use crate::workspace::{
    log_path, sanitize_issue_identifier, workspace_key, CurrentDir, CurrentDirView, WorkspaceManager,
};

verus! {

/// How many events of a run are kept for the operator.
pub const RECENT_EVENT_LIMIT: usize = 20;

/// The time before the first retry of a run that failed, in milliseconds.
pub const RETRY_BASE_MS: u64 = 10_000;

/// The time before a run that succeeded is followed up, in milliseconds.
pub const FOLLOW_UP_MS: u64 = 1_000;

// ---------------------------------------------------------------------------
// State
// ---------------------------------------------------------------------------

/// Why a run is to stop.
#[derive(Clone, Copy, Debug, PartialEq, Eq, Structural)]
pub enum StopReason {
    Terminal,
    NonActive,
    Stall,
}

/// A run, and why it is to stop, where it is.
#[derive(Debug, PartialEq)]
pub struct RunningRuntime {
    pub entry: RunningEntry,
    pub stop_reason: Option<StopReason>,
}

/// The mathematical value of a [`RunningRuntime`].
pub ghost struct RunningRuntimeView {
    pub entry: RunningEntryView,
    pub stop_reason: Option<StopReason>,
}

impl View for RunningRuntime {
    type V = RunningRuntimeView;

    open spec fn view(&self) -> RunningRuntimeView {
        RunningRuntimeView { entry: self.entry@, stop_reason: self.stop_reason }
    }
}

impl DeepView for RunningRuntime {
    type V = RunningRuntimeView;

    open spec fn deep_view(&self) -> RunningRuntimeView {
        self@
    }
}

/// All that the scheduler knows.
#[derive(Debug, PartialEq)]
pub struct OrchestratorState {
    pub config: EffectiveConfig,
    /// The runs, by the ids of their issues.
    pub running: StringMap<RunningRuntime>,
    /// The ids of the issues that are not to be taken up.
    pub claimed: StringSet,
    /// The runs that are to be tried again, by the ids of their issues.
    pub retry_attempts: StringMap<RetryEntry>,
    /// The ids of the issues of which a run succeeded.
    pub completed: StringSet,
    pub codex_totals: CodexTotals,
    pub rate_limits: Option<Json>,
    pub refresh_queued: bool,
}

/// The mathematical value of an [`OrchestratorState`].
pub ghost struct OrchestratorView {
    pub config: EffectiveConfigView,
    pub running: Map<Seq<char>, RunningRuntimeView>,
    pub claimed: Set<Seq<char>>,
    pub retrying: Map<Seq<char>, RetryEntryView>,
    pub completed: Set<Seq<char>>,
    pub totals: CodexTotals,
    pub rate_limits: Option<JsonView>,
    pub refresh_queued: bool,
}

impl View for OrchestratorState {
    type V = OrchestratorView;

    open spec fn view(&self) -> OrchestratorView {
        OrchestratorView {
            config: self.config@,
            running: self.running.deep_view(),
            claimed: self.claimed@,
            retrying: self.retry_attempts.deep_view(),
            completed: self.completed@,
            totals: self.codex_totals,
            rate_limits: self.rate_limits.deep_view(),
            refresh_queued: self.refresh_queued,
        }
    }
}

/// What is to be done about the outside.
#[derive(Debug, PartialEq)]
pub enum Effect {
    /// Stop the timer of a retry.
    AbortRetry { issue_id: String },
    /// Start a timer, at the end of which the retry of an issue is due.
    StartRetryTimer { issue_id: String, delay_ms: u64 },
    /// Start a worker on an issue.
    StartWorker { issue: Issue, attempt: Option<u32> },
    /// Tell the worker on an issue to stop.
    CancelWorker { issue_id: String },
    /// Remove the workspace of an issue; whether that succeeds does not matter.
    CleanupWorkspace { identifier: String },
}

/// The mathematical value of an [`Effect`].
pub ghost enum EffectView {
    AbortRetry { issue_id: Seq<char> },
    StartRetryTimer { issue_id: Seq<char>, delay_ms: u64 },
    StartWorker { issue: IssueView, attempt: Option<u32> },
    CancelWorker { issue_id: Seq<char> },
    CleanupWorkspace { identifier: Seq<char> },
}

impl View for Effect {
    type V = EffectView;

    open spec fn view(&self) -> EffectView {
        match *self {
            Effect::AbortRetry { issue_id } => EffectView::AbortRetry { issue_id: issue_id@ },
            Effect::StartRetryTimer { issue_id, delay_ms } => EffectView::StartRetryTimer {
                issue_id: issue_id@,
                delay_ms,
            },
            Effect::StartWorker { issue, attempt } => EffectView::StartWorker {
                issue: issue@,
                attempt,
            },
            Effect::CancelWorker { issue_id } => EffectView::CancelWorker { issue_id: issue_id@ },
            Effect::CleanupWorkspace { identifier } => EffectView::CleanupWorkspace {
                identifier: identifier@,
            },
        }
    }
}

impl DeepView for Effect {
    type V = EffectView;

    open spec fn deep_view(&self) -> EffectView {
        self@
    }
}

// ---------------------------------------------------------------------------
// Rules
// ---------------------------------------------------------------------------

/// The time before a retry: it doubles with each attempt, up to a limit.
pub open spec fn retry_delay(attempt: u32, limit: u64) -> u64 {
    let doublings: nat = if attempt == 0 {
        0
    } else {
        (attempt - 1) as nat
    };
    if RETRY_BASE_MS * pow2(doublings) < limit {
        (RETRY_BASE_MS * pow2(doublings)) as u64
    } else {
        limit
    }
}

/// The number of the attempt after one.
pub open spec fn next_attempt(attempt: Option<u32>) -> u32 {
    match attempt {
        Some(attempt) => (attempt + 1) as u32,
        None => 1,
    }
}

/// The totals with the time that a run took. Time does not run backwards.
pub open spec fn with_runtime(totals: CodexTotals, started_at: Timestamp, now: Timestamp) ->
    CodexTotals {
    let elapsed = chrono_millis_between(started_at, now);
    let sum = totals.millis_running + elapsed;
    CodexTotals {
        millis_running: if elapsed <= 0 {
            totals.millis_running
        } else if sum > u64::MAX {
            u64::MAX
        } else {
            sum as u64
        },
        ..totals
    }
}

/// How many tokens more a session has used than it last told of.
pub open spec fn growth(latest: u64, reported: u64) -> int {
    if latest > reported {
        latest - reported
    } else {
        0
    }
}

/// The totals still fit in 64 bits after a session has told of its tokens.
pub open spec fn totals_fit(totals: CodexTotals, live: LiveSessionView, latest: TokenUsage) -> bool {
    &&& totals.input_tokens + growth(latest.input_tokens, live.last_reported_input_tokens)
        <= u64::MAX
    &&& totals.output_tokens + growth(latest.output_tokens, live.last_reported_output_tokens)
        <= u64::MAX
    &&& totals.total_tokens + growth(latest.total_tokens, live.last_reported_total_tokens)
        <= u64::MAX
}

/// The totals after a session has told of its tokens: each grows by what the session has used more.
pub open spec fn with_tokens(totals: CodexTotals, live: LiveSessionView, latest: TokenUsage) ->
    CodexTotals {
    CodexTotals {
        input_tokens: (totals.input_tokens + growth(
            latest.input_tokens,
            live.last_reported_input_tokens,
        )) as u64,
        output_tokens: (totals.output_tokens + growth(
            latest.output_tokens,
            live.last_reported_output_tokens,
        )) as u64,
        total_tokens: (totals.total_tokens + growth(
            latest.total_tokens,
            live.last_reported_total_tokens,
        )) as u64,
        ..totals
    }
}

/// A session that has told of its tokens.
pub open spec fn told_tokens(live: LiveSessionView, latest: TokenUsage) -> LiveSessionView {
    LiveSessionView {
        codex_input_tokens: latest.input_tokens,
        codex_output_tokens: latest.output_tokens,
        codex_total_tokens: latest.total_tokens,
        last_reported_input_tokens: latest.input_tokens,
        last_reported_output_tokens: latest.output_tokens,
        last_reported_total_tokens: latest.total_tokens,
        ..live
    }
}

/// A session after an update, but for its tokens.
pub open spec fn told_news(live: LiveSessionView, update: SessionUpdateView) -> LiveSessionView {
    LiveSessionView {
        last_codex_message: match update.message {
            Some(message) => Some(message),
            None => live.last_codex_message,
        },
        last_codex_event: Some(update.event),
        last_codex_timestamp: Some(update.at),
        codex_app_server_pid: update.pid,
        thread_id: update.thread_id,
        turn_id: update.turn_id,
        session_id: update.session_id,
        turn_count: match update.turn_count {
            Some(turn_count) => turn_count,
            None => live.turn_count,
        },
        ..live
    }
}

/// An event after which the last error of a run is another.
pub open spec fn tells_error(event: Seq<char>) -> bool {
    ||| event == "turn_failed"@
    ||| event == "turn_cancelled"@
    ||| event == "turn_input_required"@
    ||| event == "startup_failed"@
}

/// The last of some events.
pub open spec fn latest_events(events: Seq<RecentEventView>) -> Seq<RecentEventView> {
    if events.len() > RECENT_EVENT_LIMIT {
        events.skip(events.len() - RECENT_EVENT_LIMIT)
    } else {
        events
    }
}

/// A run after an update.
pub open spec fn told_run(entry: RunningEntryView, update: SessionUpdateView) -> RunningEntryView {
    let message = match update.message {
        Some(message) => message,
        None => seq![],
    };
    let news = told_news(entry.session, update);
    RunningEntryView {
        session: match update.absolute_tokens {
            Some(tokens) => told_tokens(news, tokens),
            None => news,
        },
        recent_events: latest_events(
            entry.recent_events.push(
                RecentEventView { at: update.at, event: update.event, message },
            ),
        ),
        last_error: if tells_error(update.event) {
            Some(message)
        } else {
            entry.last_error
        },
        ..entry
    }
}

/// The last issue with an id.
pub open spec fn last_with_id(issues: Seq<IssueView>, id: Seq<char>) -> Option<IssueView>
    decreases issues.len(),
{
    if issues.len() == 0 {
        None
    } else if issues.last().id == id {
        Some(issues.last())
    } else {
        last_with_id(issues.drop_last(), id)
    }
}

/// The first issue with an id.
pub open spec fn first_with_id(issues: Seq<IssueView>, id: Seq<char>) -> Option<IssueView>
    decreases issues.len(),
{
    if issues.len() == 0 {
        None
    } else if issues[0].id == id {
        Some(issues[0])
    } else {
        first_with_id(issues.drop_first(), id)
    }
}

impl OrchestratorView {
    /// How many more runs there may be.
    pub open spec fn free_slots(self) -> nat {
        if self.running.dom().len() >= self.config.agent.max_concurrent_agents {
            0
        } else {
            (self.config.agent.max_concurrent_agents - self.running.dom().len()) as nat
        }
    }

    /// The ids of the runs whose issue is in a state.
    pub open spec fn running_in(self, state: Seq<char>) -> Set<Seq<char>> {
        self.running.dom().filter(
            |id: Seq<char>|
                normalized_state(self.running[id].entry.issue.state) == normalized_state(state),
        )
    }

    /// How many runs there may be with an issue in a state.
    pub open spec fn state_limit(self, state: Seq<char>) -> usize {
        let limits = self.config.agent.max_concurrent_agents_by_state;
        if limits.contains_key(normalized_state(state)) {
            limits[normalized_state(state)]
        } else {
            self.config.agent.max_concurrent_agents
        }
    }

    /// A blocker that still blocks: one that is not known to be finished.
    pub open spec fn still_blocks(self, blocker: BlockerRefView) -> bool {
        match blocker.state {
            Some(state) => !self.config.is_terminal(state),
            None => true,
        }
    }

    /// An issue that is to be done, and waits for another.
    pub open spec fn is_blocked(self, issue: IssueView) -> bool {
        normalized_state(issue.state) == "todo"@ && exists|i: int|
            0 <= i < issue.blocked_by.len() && self.still_blocks(#[trigger] issue.blocked_by[i])
    }

    /// The issue may be worked on at all: it has what it needs, is in an active state that is not
    /// also terminal, and is not blocked.
    pub open spec fn is_workable(self, issue: IssueView) -> bool {
        &&& issue.id.len() > 0
        &&& issue.identifier.len() > 0
        &&& issue.title.len() > 0
        &&& issue.state.len() > 0
        &&& self.config.is_active(issue.state)
        &&& !self.config.is_terminal(issue.state)
        &&& !self.is_blocked(issue)
    }

    /// The issue may be taken up now: it may be worked on, nobody does, and there is room for one
    /// more run with an issue in its state. An issue that is claimed may be taken up only where that
    /// is allowed of this one.
    pub open spec fn may_take_up(self, issue: IssueView, allowed: Option<Seq<char>>) -> bool {
        &&& self.is_workable(issue)
        &&& !self.running.contains_key(issue.id)
        &&& self.claimed.contains(issue.id) ==> allowed == Some(issue.id)
        &&& self.free_slots() > 0
        &&& self.running_in(issue.state).len() < self.state_limit(issue.state)
    }

    /// The effect of taking a retry out, where there is one.
    pub open spec fn abort_of(self, id: Seq<char>) -> Seq<EffectView> {
        if self.retrying.contains_key(id) {
            seq![EffectView::AbortRetry { issue_id: id }]
        } else {
            seq![]
        }
    }

    /// An issue is taken up.
    pub open spec fn taking_up(
        self,
        issue: IssueView,
        attempt: Option<u32>,
        now: Timestamp,
        current_dir: CurrentDirView,
    ) -> (OrchestratorView, Seq<EffectView>) {
        let key = workspace_key(issue.identifier);
        let root = self.config.workspace.root;
        let entry = RunningEntryView {
            issue_id: issue.id,
            issue_identifier: issue.identifier,
            issue,
            workspace_path: path_join(root, key),
            retry_attempt: attempt,
            started_at: now,
            session: no_live_session(),
            recent_events: seq![],
            last_error: None,
            log_path: match log_path(current_dir, root, key) {
                Ok(path) => Some(path),
                Err(_) => None,
            },
        };
        (
            OrchestratorView {
                running: self.running.insert(
                    issue.id,
                    RunningRuntimeView { entry, stop_reason: None },
                ),
                claimed: self.claimed.insert(issue.id),
                retrying: self.retrying.remove(issue.id),
                ..self
            },
            self.abort_of(issue.id).push(EffectView::StartWorker { issue, attempt }),
        )
    }

    /// Of some issues, in their order, those that may be taken up are, while there is room.
    pub open spec fn taking_up_all(
        self,
        issues: Seq<IssueView>,
        now: Timestamp,
        current_dir: CurrentDirView,
    ) -> (OrchestratorView, Seq<EffectView>)
        decreases issues.len(),
    {
        if issues.len() == 0 || self.free_slots() == 0 {
            (self, seq![])
        } else {
            let (state, effects) = if self.may_take_up(issues[0], None) {
                self.taking_up(issues[0], None, now, current_dir)
            } else {
                (self, seq![])
            };
            let (last, more) = state.taking_up_all(issues.drop_first(), now, current_dir);
            (last, effects + more)
        }
    }

    /// An issue is let go.
    pub open spec fn letting_go(self, id: Seq<char>) -> (OrchestratorView, Seq<EffectView>) {
        (
            OrchestratorView {
                claimed: self.claimed.remove(id),
                retrying: self.retrying.remove(id),
                ..self
            },
            self.abort_of(id),
        )
    }

    /// A run is to be tried again after some time.
    pub open spec fn trying_again(
        self,
        id: Seq<char>,
        identifier: Seq<char>,
        attempt: u32,
        error: Option<Seq<char>>,
        delay_ms: u64,
        now: Timestamp,
    ) -> (OrchestratorView, Seq<EffectView>) {
        let entry = RetryEntryView {
            issue_id: id,
            identifier,
            attempt,
            due_at: chrono_after_millis(now, delay_ms as i64),
            error,
        };
        (
            OrchestratorView {
                claimed: self.claimed.insert(id),
                retrying: self.retrying.insert(id, entry),
                ..self
            },
            self.abort_of(id).push(EffectView::StartRetryTimer { issue_id: id, delay_ms }),
        )
    }

    /// The time before a retry.
    pub open spec fn delay(self, attempt: u32) -> u64 {
        retry_delay(attempt, self.config.agent.max_retry_backoff_ms)
    }

    /// A run is told to stop. The first reason for that is kept.
    pub open spec fn stopping(self, id: Seq<char>, reason: StopReason) -> (
        OrchestratorView,
        Seq<EffectView>,
    ) {
        if self.running.contains_key(id) {
            let run = self.running[id];
            let stop_reason = match run.stop_reason {
                Some(first) => Some(first),
                None => Some(reason),
            };
            (
                OrchestratorView {
                    running: self.running.insert(id, RunningRuntimeView { stop_reason, ..run }),
                    ..self
                },
                seq![EffectView::CancelWorker { issue_id: id }],
            )
        } else {
            (self, seq![])
        }
    }

    /// Some runs are told to stop.
    pub open spec fn stopping_all(self, ids: Seq<Seq<char>>, reason: StopReason) -> (
        OrchestratorView,
        Seq<EffectView>,
    )
        decreases ids.len(),
    {
        if ids.len() == 0 {
            (self, seq![])
        } else {
            let (state, effects) = self.stopping_all(ids.drop_last(), reason);
            let (last, more) = state.stopping(ids.last(), reason);
            (last, effects + more)
        }
    }

    /// The tracker tells how a running issue stands: a run whose issue is finished or no longer
    /// active is told to stop, and of the others the issue is brought up to date.
    pub open spec fn facing(self, id: Seq<char>, refreshed: Seq<IssueView>) -> (
        OrchestratorView,
        Seq<EffectView>,
    ) {
        match last_with_id(refreshed, id) {
            None => (self, seq![]),
            Some(issue) => if self.config.is_terminal(issue.state) {
                self.stopping(id, StopReason::Terminal)
            } else if self.config.is_active(issue.state) {
                if self.running.contains_key(id) {
                    let run = self.running[id];
                    (
                        OrchestratorView {
                            running: self.running.insert(
                                id,
                                RunningRuntimeView {
                                    entry: RunningEntryView { issue, ..run.entry },
                                    ..run
                                },
                            ),
                            ..self
                        },
                        seq![],
                    )
                } else {
                    (self, seq![])
                }
            } else {
                self.stopping(id, StopReason::NonActive)
            },
        }
    }

    /// The tracker tells how some running issues stand.
    pub open spec fn facing_all(self, ids: Seq<Seq<char>>, refreshed: Seq<IssueView>) -> (
        OrchestratorView,
        Seq<EffectView>,
    )
        decreases ids.len(),
    {
        if ids.len() == 0 {
            (self, seq![])
        } else {
            let (state, effects) = self.facing_all(ids.drop_last(), refreshed);
            let (last, more) = state.facing(ids.last(), refreshed);
            (last, effects + more)
        }
    }

    /// A session tells its news.
    pub open spec fn hearing(self, update: SessionUpdateView) -> OrchestratorView {
        if self.running.contains_key(update.issue_id) {
            let run = self.running[update.issue_id];
            OrchestratorView {
                running: self.running.insert(
                    update.issue_id,
                    RunningRuntimeView { entry: told_run(run.entry, update), ..run },
                ),
                totals: match update.absolute_tokens {
                    Some(tokens) => with_tokens(self.totals, run.entry.session, tokens),
                    None => self.totals,
                },
                rate_limits: match update.rate_limits {
                    Some(limits) => Some(limits),
                    None => self.rate_limits,
                },
                ..self
            }
        } else {
            self
        }
    }

    /// The totals still fit in 64 bits after a session has told its news.
    pub open spec fn can_hear(self, update: SessionUpdateView) -> bool {
        match update.absolute_tokens {
            Some(tokens) => self.running.contains_key(update.issue_id) ==> totals_fit(
                self.totals,
                self.running[update.issue_id].entry.session,
                tokens,
            ),
            None => true,
        }
    }

    /// The state without a run that has ended, whose time is counted.
    pub open spec fn without_run(self, id: Seq<char>, now: Timestamp) -> OrchestratorView {
        OrchestratorView {
            running: self.running.remove(id),
            totals: with_runtime(self.totals, self.running[id].entry.started_at, now),
            ..self
        }
    }

    /// A run has ended. What then, depends first on why it was told to stop: an issue that is
    /// finished is let go with its workspace, one that is no longer active is let go, and a run that
    /// stalled is tried again. A run that was not told to stop is followed up soon where it
    /// succeeded, and tried again otherwise.
    pub open spec fn ending(self, outcome: WorkerOutcomeView, now: Timestamp) -> (
        OrchestratorView,
        Seq<EffectView>,
    ) {
        let id = outcome.issue.id;
        let identifier = outcome.issue.identifier;
        if !self.running.contains_key(id) {
            (self, seq![])
        } else {
            let run = self.running[id];
            let state = self.without_run(id, now);
            let attempt = next_attempt(run.entry.retry_attempt);
            match run.stop_reason {
                Some(StopReason::Terminal) => {
                    let (last, effects) = state.letting_go(id);
                    (last, seq![EffectView::CleanupWorkspace { identifier }] + effects)
                },
                Some(StopReason::NonActive) => state.letting_go(id),
                Some(StopReason::Stall) => state.trying_again(
                    id,
                    identifier,
                    attempt,
                    Some("stalled session"@),
                    state.delay(attempt),
                    now,
                ),
                None => match outcome.exit {
                    WorkerExit::Succeeded => OrchestratorView {
                        completed: state.completed.insert(id),
                        ..state
                    }.trying_again(id, identifier, 1, None, FOLLOW_UP_MS, now),
                    WorkerExit::TimedOut => state.trying_again(
                        id,
                        identifier,
                        attempt,
                        Some("worker turn timeout"@),
                        state.delay(attempt),
                        now,
                    ),
                    WorkerExit::Canceled => state.trying_again(
                        id,
                        identifier,
                        attempt,
                        Some("worker canceled"@),
                        state.delay(attempt),
                        now,
                    ),
                    WorkerExit::Failed => state.trying_again(
                        id,
                        identifier,
                        attempt,
                        outcome.error,
                        state.delay(attempt),
                        now,
                    ),
                },
            }
        }
    }

    /// The run can be tried again after its end: the number of the attempt and the time at which it
    /// is due can be told.
    pub open spec fn can_end(self, outcome: WorkerOutcomeView, now: Timestamp) -> bool {
        let id = outcome.issue.id;
        self.running.contains_key(id) ==> {
            let run = self.running[id];
            let attempt = next_attempt(run.entry.retry_attempt);
            let delay = if run.stop_reason is None && outcome.exit == WorkerExit::Succeeded {
                FOLLOW_UP_MS
            } else {
                self.delay(attempt)
            };
            &&& run.entry.retry_attempt != Some(u32::MAX)
            &&& run.stop_reason == Some(StopReason::Terminal) || run.stop_reason == Some(
                StopReason::NonActive,
            ) || now.can_add_millis(delay as i64)
        }
    }

    /// The retry of an issue is due, and these are the issues that may be taken up. An issue that is
    /// not among them is let go; one that may not be taken up now is tried again later.
    pub open spec fn retrying_now(
        self,
        id: Seq<char>,
        fetched: Result<Seq<IssueView>, ErrorView>,
        now: Timestamp,
        current_dir: CurrentDirView,
    ) -> (OrchestratorView, Seq<EffectView>) {
        if !self.retrying.contains_key(id) {
            (self, seq![])
        } else {
            let retry = self.retrying[id];
            let state = OrchestratorView { retrying: self.retrying.remove(id), ..self };
            let attempt = (retry.attempt + 1) as u32;
            match fetched {
                Err(error) => state.trying_again(
                    id,
                    retry.identifier,
                    attempt,
                    Some("retry poll failed: "@ + error_text(error)),
                    state.delay(attempt),
                    now,
                ),
                Ok(candidates) => match first_with_id(candidates, id) {
                    None => state.letting_go(id),
                    Some(issue) => if state.may_take_up(issue, Some(id)) {
                        state.taking_up(issue, Some(retry.attempt), now, current_dir)
                    } else {
                        state.trying_again(
                            issue.id,
                            issue.identifier,
                            attempt,
                            Some("no available orchestrator slots"@),
                            state.delay(attempt),
                            now,
                        )
                    },
                },
            }
        }
    }

    /// The retry of an issue that is due leads to another retry.
    pub open spec fn retries_later(self, id: Seq<char>, fetched: Result<Seq<IssueView>, ErrorView>) ->
        bool {
        &&& self.retrying.contains_key(id)
        &&& match fetched {
            Err(_) => true,
            Ok(candidates) => match first_with_id(candidates, id) {
                None => false,
                Some(issue) => !OrchestratorView {
                    retrying: self.retrying.remove(id),
                    ..self
                }.may_take_up(issue, Some(id)),
            },
        }
    }

    /// A retry that leads to another can: the number of the attempt and the time at which it is due
    /// can be told.
    pub open spec fn can_retry(
        self,
        id: Seq<char>,
        fetched: Result<Seq<IssueView>, ErrorView>,
        now: Timestamp,
    ) -> bool {
        self.retries_later(id, fetched) ==> {
            &&& self.retrying[id].attempt < u32::MAX
            &&& now.can_add_millis(self.delay((self.retrying[id].attempt + 1) as u32) as i64)
        }
    }
}

/// The ids of the runs that have been silent for too long.
pub open spec fn stalled_ids(
    entries: Seq<(Seq<char>, RunningRuntimeView)>,
    timeout_ms: i64,
    now: Timestamp,
) -> Seq<Seq<char>>
    decreases entries.len(),
{
    if entries.len() == 0 {
        seq![]
    } else {
        let before = stalled_ids(entries.drop_last(), timeout_ms, now);
        if is_stalled(entries.last().1.entry, timeout_ms, now) {
            before.push(entries.last().0)
        } else {
            before
        }
    }
}

/// The run has been silent for too long: since its last event, or since its start where there was
/// none.
pub open spec fn is_stalled(entry: RunningEntryView, timeout_ms: i64, now: Timestamp) -> bool {
    let last = match entry.session.last_codex_timestamp {
        Some(at) => at,
        None => entry.started_at,
    };
    chrono_millis_between(last, now) > timeout_ms
}

// ---------------------------------------------------------------------------
// Functions
// ---------------------------------------------------------------------------

pub(crate) fn no_effects() -> (r: Vec<Effect>)
    ensures
        r.deep_view() == Seq::<EffectView>::empty(),
{
    let r: Vec<Effect> = Vec::new();
    proof {
        assert(r.deep_view() =~= Seq::empty());
    }
    r
}

fn with_effect(effects: Vec<Effect>, effect: Effect) -> (r: Vec<Effect>)
    ensures
        r.deep_view() == effects.deep_view().push(effect@),
{
    let ghost before = effects.deep_view();
    let ghost view = effect@;
    let mut r = effects;
    r.push(effect);
    proof {
        assert(r.deep_view() =~= before.push(view));
    }
    r
}

fn with_effects(effects: Vec<Effect>, more: Vec<Effect>) -> (r: Vec<Effect>)
    ensures
        r.deep_view() == effects.deep_view() + more.deep_view(),
{
    let ghost before = effects.deep_view();
    let ghost after = more.deep_view();
    let mut r = effects;
    let mut more = more;
    r.append(&mut more);
    proof {
        assert(r.deep_view() =~= before + after);
    }
    r
}

/// The time before a retry: it doubles with each attempt, up to a limit.
pub fn retry_delay_ms(attempt: u32, limit: u64) -> (r: u64)
    ensures
        r == retry_delay(attempt, limit),
{
    let mut delay: u64 = RETRY_BASE_MS;
    let mut done: u32 = 1;
    let ghost doublings: nat = if attempt == 0 {
        0
    } else {
        (attempt - 1) as nat
    };
    proof {
        vstd::arithmetic::power2::lemma2_to64();
    }
    while done < attempt
        invariant
            1 <= done,
            attempt > 0 ==> done <= attempt,
            attempt > 0 ==> doublings == attempt - 1,
            attempt == 0 ==> doublings == 0 && done == 1,
            delay == RETRY_BASE_MS * pow2((done - 1) as nat),
        decreases attempt - done,
    {
        proof {
            lemma_pow2_unfold(done as nat);
            if done < doublings {
                lemma_pow2_strictly_increases(done as nat, doublings);
            }
        }
        if delay >= limit || delay > 0x7fff_ffff_ffff_ffff {
            proof {
                assert(RETRY_BASE_MS * pow2(done as nat) >= limit);
                assert(pow2(done as nat) <= pow2(doublings));
                assert(RETRY_BASE_MS * pow2(doublings) >= RETRY_BASE_MS * pow2(done as nat))
                    by (nonlinear_arith)
                    requires
                        pow2(done as nat) <= pow2(doublings),
                        RETRY_BASE_MS > 0,
                ;
            }
            return limit;
        }
        delay = delay * 2;
        done += 1;
    }
    if delay < limit {
        delay
    } else {
        limit
    }
}

/// Take in how many tokens a session has used.
pub fn apply_absolute_tokens(live: &mut LiveSession, totals: &mut CodexTotals, latest: &TokenUsage)
    requires
        totals_fit(*old(totals), old(live)@, *latest),
    ensures
        final(live)@ == told_tokens(old(live)@, *latest),
        *final(totals) == with_tokens(*old(totals), old(live)@, *latest),
{
    let input = latest.input_tokens.saturating_sub(live.last_reported_input_tokens);
    let output = latest.output_tokens.saturating_sub(live.last_reported_output_tokens);
    let total = latest.total_tokens.saturating_sub(live.last_reported_total_tokens);
    live.codex_input_tokens = latest.input_tokens;
    live.codex_output_tokens = latest.output_tokens;
    live.codex_total_tokens = latest.total_tokens;
    live.last_reported_input_tokens = latest.input_tokens;
    live.last_reported_output_tokens = latest.output_tokens;
    live.last_reported_total_tokens = latest.total_tokens;
    totals.input_tokens = totals.input_tokens + input;
    totals.output_tokens = totals.output_tokens + output;
    totals.total_tokens = totals.total_tokens + total;
}

fn sum_fits(total: u64, latest: u64, reported: u64) -> (r: bool)
    ensures
        r == (total + growth(latest, reported) <= u64::MAX),
{
    total.checked_add(latest.saturating_sub(reported)).is_some()
}

/// Count the time that a run took.
pub fn add_runtime(totals: &mut CodexTotals, started_at: Timestamp, now: Timestamp)
    ensures
        *final(totals) == with_runtime(*old(totals), started_at, now),
{
    let elapsed = now.millis_since(started_at);
    if elapsed > 0 {
        totals.millis_running = totals.millis_running.saturating_add(elapsed as u64);
    }
}

fn event_tells_error(event: &str) -> (r: bool)
    ensures
        r == tells_error(event@),
{
    str_eq(event, "turn_failed") || str_eq(event, "turn_cancelled") || str_eq(
        event,
        "turn_input_required",
    ) || str_eq(event, "startup_failed")
}

fn keep_latest_events(events: &mut Vec<RecentEvent>)
    ensures
        final(events).deep_view() == latest_events(old(events).deep_view()),
{
    let ghost all = events.deep_view();
    let n = events.len();
    let mut dropped: usize = 0;
    proof {
        assert(all.skip(0) =~= all);
    }
    while events.len() > RECENT_EVENT_LIMIT
        invariant
            n == all.len(),
            events@.len() == n - dropped,
            dropped <= n,
            events@.len() >= RECENT_EVENT_LIMIT || dropped == 0,
            events.deep_view() == all.skip(dropped as int),
        decreases events@.len(),
    {
        let ghost before = events.deep_view();
        let _ = events.remove(0);
        proof {
            assert(events.deep_view() =~= before.skip(1));
            assert(before.skip(1) =~= all.skip(dropped + 1));
        }
        dropped += 1;
    }
}

fn find_last_with_id<'a>(issues: &'a Vec<Issue>, id: &str) -> (r: Option<&'a Issue>)
    ensures
        r.deep_view() == last_with_id(issues.deep_view(), id@),
{
    let ghost all = issues.deep_view();
    let mut n: usize = issues.len();
    proof {
        assert(all.take(n as int) =~= all);
    }
    while n > 0
        invariant
            n <= issues@.len(),
            all == issues.deep_view(),
            last_with_id(all, id@) == last_with_id(all.take(n as int), id@),
        decreases n,
    {
        proof {
            assert(all.take(n as int).last() == issues@[n - 1]@);
            assert(all.take(n as int).drop_last() =~= all.take(n - 1));
        }
        if str_eq(issues[n - 1].id.as_str(), id) {
            return Some(&issues[n - 1]);
        }
        n -= 1;
    }
    None
}

fn find_first_with_id<'a>(issues: &'a Vec<Issue>, id: &str) -> (r: Option<&'a Issue>)
    ensures
        r.deep_view() == first_with_id(issues.deep_view(), id@),
{
    let ghost all = issues.deep_view();
    proof {
        assert(all.skip(0) =~= all);
    }
    for i in 0..issues.len()
        invariant
            all == issues.deep_view(),
            all.len() == issues@.len(),
            first_with_id(all, id@) == first_with_id(all.skip(i as int), id@),
    {
        proof {
            assert(all.skip(i as int)[0] == issues@[i as int]@);
            assert(all.skip(i as int).drop_first() =~= all.skip(i + 1));
        }
        if str_eq(issues[i].id.as_str(), id) {
            return Some(&issues[i]);
        }
    }
    None
}

impl OrchestratorState {
    /// A scheduler that knows of no issue.
    pub fn new(config: EffectiveConfig) -> (r: OrchestratorState)
        ensures
            r@ == idle(config@),
    {
        let r = OrchestratorState {
            config,
            running: StringMap::new(),
            claimed: StringSet::new(),
            retry_attempts: StringMap::new(),
            completed: StringSet::new(),
            codex_totals: CodexTotals {
                input_tokens: 0,
                output_tokens: 0,
                total_tokens: 0,
                millis_running: 0,
            },
            rate_limits: None,
            refresh_queued: false,
        };
        proof {
            assert(r@.running =~= Map::empty());
            assert(r@.retrying =~= Map::empty());
        }
        r
    }

    /// How many more runs there may be.
    pub fn available_global_slots(&self) -> (r: usize)
        ensures
            r == self@.free_slots(),
    {
        let n = self.running.size();
        self.config.agent.max_concurrent_agents.saturating_sub(n)
    }

    /// How many runs there are whose issue is in a state.
    pub fn state_running_count(&self, issue_state: &str) -> (r: usize)
        ensures
            r == self@.running_in(issue_state@).len(),
    {
        let normalized = EffectiveConfig::normalize_state(issue_state);
        let n = self.running.size();
        let ghost entries = self.running.entry_views();
        let ghost condition = |run: RunningRuntimeView|
            normalized_state(run.entry.issue.state) == normalized_state(issue_state@);
        let ghost pred = |entry: (Seq<char>, RunningRuntimeView)| condition(entry.1);
        let mut r: usize = 0;
        proof {
            reveal(Seq::filter);
            assert(entries.take(0).filter(pred).len() == 0);
        }
        for i in 0..n
            invariant
                n == entries.len(),
                n == self.running.entries().len(),
                entries == self.running.entry_views(),
                normalized@ == normalized_state(issue_state@),
                condition == (|run: RunningRuntimeView|
                    normalized_state(run.entry.issue.state) == normalized_state(issue_state@)),
                pred == (|entry: (Seq<char>, RunningRuntimeView)| condition(entry.1)),
                r <= i,
                r == entries.take(i as int).filter(pred).len(),
        {
            let run = self.running.value_at(i);
            proof {
                reveal(Seq::filter);
                assert(entries.take(i + 1).drop_last() =~= entries.take(i as int));
                assert(entries.take(i + 1).last() == entries[i as int]);
                assert(entries[i as int].1 == run@);
            }
            let own = EffectiveConfig::normalize_state(run.entry.issue.state.as_str());
            if str_eq(own.as_str(), normalized.as_str()) {
                r += 1;
            }
        }
        proof {
            assert(entries.take(n as int) =~= entries);
            lemma_count(entries, condition);
            assert(self@.running_in(issue_state@) =~= map_of(entries).dom().filter(
                |key: Seq<char>| condition(map_of(entries)[key]),
            ));
        }
        r
    }

    fn blocker_blocks(&self, blocker: &BlockerRef) -> (r: bool)
        ensures
            r == self@.still_blocks(blocker@),
    {
        match &blocker.state {
            Some(state) => !self.config.is_terminal_state(state.as_str()),
            None => true,
        }
    }

    fn issue_is_blocked(&self, issue: &Issue) -> (r: bool)
        ensures
            r == self@.is_blocked(issue@),
    {
        let normalized = EffectiveConfig::normalize_state(issue.state.as_str());
        if !str_eq(normalized.as_str(), "todo") {
            return false;
        }
        let ghost blockers = issue@.blocked_by;
        for i in 0..issue.blocked_by.len()
            invariant
                normalized_state(issue@.state) == "todo"@,
                blockers == issue@.blocked_by,
                blockers.len() == issue.blocked_by@.len(),
                forall|j: int| 0 <= j < i ==> !self@.still_blocks(#[trigger] blockers[j]),
        {
            if self.blocker_blocks(&issue.blocked_by[i]) {
                assert(self@.still_blocks(blockers[i as int]));
                return true;
            }
        }
        false
    }

    /// Whether an issue may be taken up now.
    pub fn should_dispatch(&self, issue: &Issue, allow_claimed_issue_id: Option<&str>) -> (r: bool)
        ensures
            r == self@.may_take_up(issue@, allow_claimed_issue_id.deep_view()),
    {
        if issue.id.as_str().is_empty() || issue.identifier.as_str().is_empty()
            || issue.title.as_str().is_empty() || issue.state.as_str().is_empty() {
            return false;
        }
        if !self.config.is_active_state(issue.state.as_str()) || self.config.is_terminal_state(
            issue.state.as_str(),
        ) {
            return false;
        }
        if self.running.contains_key(issue.id.as_str()) {
            return false;
        }
        let allowed = match allow_claimed_issue_id {
            Some(id) => str_eq(id, issue.id.as_str()),
            None => false,
        };
        if self.claimed.contains(issue.id.as_str()) && !allowed {
            return false;
        }
        if self.available_global_slots() == 0 {
            return false;
        }
        let normalized = EffectiveConfig::normalize_state(issue.state.as_str());
        let limit = match self.config.agent.max_concurrent_agents_by_state.get(
            normalized.as_str(),
        ) {
            Some(limit) => *limit,
            None => self.config.agent.max_concurrent_agents,
        };
        if self.state_running_count(issue.state.as_str()) >= limit {
            return false;
        }
        !self.issue_is_blocked(issue)
    }

    fn take_retry_out(&mut self, issue_id: &str) -> (r: Vec<Effect>)
        ensures
            final(self)@ == (OrchestratorView {
                retrying: old(self)@.retrying.remove(issue_id@),
                ..old(self)@
            }),
            r.deep_view() == old(self)@.abort_of(issue_id@),
    {
        proof {
            lemma_deep_remove(self.retry_attempts@, issue_id@);
        }
        match self.retry_attempts.remove(issue_id) {
            Some(_) => with_effect(
                no_effects(),
                Effect::AbortRetry { issue_id: issue_id.to_owned() },
            ),
            None => no_effects(),
        }
    }

    /// Take up an issue.
    pub fn dispatch_issue(
        &mut self,
        issue: Issue,
        attempt: Option<u32>,
        now: Timestamp,
        current_dir: &CurrentDir,
    ) -> (r: Vec<Effect>)
        ensures
            (final(self)@, r.deep_view()) == old(self)@.taking_up(
                issue@,
                attempt,
                now,
                current_dir@,
            ),
    {
        let effects = self.take_retry_out(issue.id.as_str());
        let key = sanitize_issue_identifier(issue.identifier.as_str());
        let workspace_path = join_path(self.config.workspace.root.as_str(), key.as_str());
        let log_path = match WorkspaceManager.session_log_path(
            self.config.workspace.root.as_str(),
            key.as_str(),
            current_dir,
        ) {
            Ok(path) => Some(path),
            Err(_) => None,
        };
        let effects = with_effect(effects, Effect::StartWorker { issue: issue.clone(), attempt });
        let id = issue.id.clone();
        let ghost issue_view = issue@;
        self.claimed.insert(issue.id.clone());
        let run = RunningRuntime {
            entry: RunningEntry {
                issue_id: issue.id.clone(),
                issue_identifier: issue.identifier.clone(),
                issue,
                workspace_path,
                retry_attempt: attempt,
                started_at: now,
                session: LiveSession::default(),
                recent_events: Vec::new(),
                last_error: None,
                log_path,
            },
            stop_reason: None,
        };
        proof {
            assert(run@.entry.recent_events =~= seq![]);
            lemma_deep_insert(self.running@, id@, run);
        }
        let _ = self.running.insert(id, run);
        effects
    }

    /// Put the issues that the tracker offers in order, and take up those that may be, while there is
    /// room.
    pub fn dispatch_candidates(
        &mut self,
        issues: Vec<Issue>,
        now: Timestamp,
        current_dir: &CurrentDir,
    ) -> (r: Vec<Effect>)
        ensures
            (final(self)@, r.deep_view()) == old(self)@.taking_up_all(
                dispatch_order(issues.deep_view()),
                now,
                current_dir@,
            ),
    {
        let ghost start = self@;
        let mut queue = issues;
        sort_issues_for_dispatch(&mut queue);
        let ghost order = queue.deep_view();
        let mut effects = no_effects();
        proof {
            assert(order.skip(0) =~= order);
            assert(effects.deep_view() + start.taking_up_all(order, now, current_dir@).1
                =~= start.taking_up_all(order, now, current_dir@).1);
        }
        for i in 0..queue.len()
            invariant
                start == old(self)@,
                order == dispatch_order(issues.deep_view()),
                order == queue.deep_view(),
                order.len() == queue@.len(),
                start.taking_up_all(order, now, current_dir@) == (
                    self@.taking_up_all(order.skip(i as int), now, current_dir@).0,
                    effects.deep_view() + self@.taking_up_all(
                        order.skip(i as int),
                        now,
                        current_dir@,
                    ).1,
                ),
        {
            let ghost rest = order.skip(i as int);
            proof {
                assert(rest[0] == queue@[i as int]@);
                assert(rest.drop_first() =~= order.skip(i + 1));
            }
            if self.available_global_slots() == 0 {
                proof {
                    assert(effects.deep_view() + Seq::<EffectView>::empty()
                        =~= effects.deep_view());
                }
                return effects;
            }
            let ghost before = self@;
            let ghost earlier = effects.deep_view();
            let more = if self.should_dispatch(&queue[i], None) {
                let issue = queue[i].clone();
                self.dispatch_issue(issue, None, now, current_dir)
            } else {
                no_effects()
            };
            effects = with_effects(effects, more);
            proof {
                let later = self@.taking_up_all(order.skip(i + 1), now, current_dir@).1;
                assert(earlier + (more.deep_view() + later) =~= effects.deep_view() + later);
            }
        }
        proof {
            assert(order.skip(order.len() as int).len() == 0);
            assert(effects.deep_view() + Seq::<EffectView>::empty() =~= effects.deep_view());
        }
        effects
    }

    /// Let go of an issue.
    pub fn release_claim(&mut self, issue_id: &str) -> (r: Vec<Effect>)
        ensures
            (final(self)@, r.deep_view()) == old(self)@.letting_go(issue_id@),
    {
        self.claimed.remove(issue_id);
        self.take_retry_out(issue_id)
    }

    /// Have a run tried again after some time.
    pub fn schedule_retry(
        &mut self,
        issue_id: &str,
        identifier: &str,
        attempt: u32,
        error: Option<String>,
        delay_ms: u64,
        now: Timestamp,
    ) -> (r: Vec<Effect>)
        requires
            now.can_add_millis(delay_ms as i64),
        ensures
            (final(self)@, r.deep_view()) == old(self)@.trying_again(
                issue_id@,
                identifier@,
                attempt,
                error.deep_view(),
                delay_ms,
                now,
            ),
    {
        let effects = self.take_retry_out(issue_id);
        self.claimed.insert(issue_id.to_owned());
        let due_at = now.plus_millis(
            #[verifier::truncate]
            (delay_ms as i64),
        );
        let entry = RetryEntry {
            issue_id: issue_id.to_owned(),
            identifier: identifier.to_owned(),
            attempt,
            due_at,
            error,
        };
        proof {
            lemma_deep_insert(self.retry_attempts@, issue_id@, entry);
            assert(old(self)@.retrying.remove(issue_id@).insert(issue_id@, entry@) =~= old(
                self,
            )@.retrying.insert(issue_id@, entry@));
        }
        let _ = self.retry_attempts.insert(issue_id.to_owned(), entry);
        with_effect(effects, Effect::StartRetryTimer { issue_id: issue_id.to_owned(), delay_ms })
    }

    /// Tell a run to stop.
    pub fn cancel_running_issue(&mut self, issue_id: &str, reason: StopReason) -> (r: Vec<Effect>)
        ensures
            (final(self)@, r.deep_view()) == old(self)@.stopping(issue_id@, reason),
    {
        proof {
            lemma_deep_remove(self.running@, issue_id@);
        }
        match self.running.remove(issue_id) {
            Some(run) => {
                let stop_reason = match run.stop_reason {
                    Some(first) => Some(first),
                    None => Some(reason),
                };
                let run = RunningRuntime { entry: run.entry, stop_reason };
                proof {
                    lemma_deep_insert(self.running@, issue_id@, run);
                    assert(old(self)@.running.remove(issue_id@).insert(issue_id@, run@) =~= old(
                        self,
                    )@.running.insert(issue_id@, run@));
                }
                let _ = self.running.insert(issue_id.to_owned(), run);
                let effects = with_effect(
                    no_effects(),
                    Effect::CancelWorker { issue_id: issue_id.to_owned() },
                );
                proof {
                    assert(effects.deep_view() =~= seq![
                        EffectView::CancelWorker { issue_id: issue_id@ },
                    ]);
                }
                effects
            },
            None => {
                proof {
                    assert(old(self)@.running.remove(issue_id@) =~= old(self)@.running);
                }
                no_effects()
            },
        }
    }

    /// The ids of the issues that are running.
    pub fn running_ids(&self) -> (r: Vec<String>)
        ensures
            r.deep_view() == self.running.entry_views().map_values(
                |entry: (Seq<char>, RunningRuntimeView)| entry.0,
            ),
            keys_differ(self.running.entry_views()),
            map_of(self.running.entry_views()) == self@.running,
    {
        let n = self.running.size();
        let mut r: Vec<String> = Vec::new();
        for i in 0..n
            invariant
                n == self.running.entries().len(),
                r@.len() == i,
                forall|j: int| 0 <= j < i ==> (#[trigger] r@[j])@ == self.running.entries()[j].0,
        {
            r.push(self.running.key_at(i).to_owned());
        }
        proof {
            assert(r.deep_view() =~= self.running.entry_views().map_values(
                |entry: (Seq<char>, RunningRuntimeView)| entry.0,
            ));
        }
        r
    }

    fn find_stalled(&self, timeout_ms: i64, now: Timestamp) -> (r: Vec<String>)
        ensures
            r.deep_view() == stalled_ids(self.running.entry_views(), timeout_ms, now),
            keys_differ(self.running.entry_views()),
            map_of(self.running.entry_views()) == self@.running,
    {
        let n = self.running.size();
        let ghost entries = self.running.entry_views();
        let mut r: Vec<String> = Vec::new();
        proof {
            assert(r.deep_view() =~= stalled_ids(entries.take(0), timeout_ms, now));
        }
        for i in 0..n
            invariant
                n == entries.len(),
                n == self.running.entries().len(),
                entries == self.running.entry_views(),
                r.deep_view() == stalled_ids(entries.take(i as int), timeout_ms, now),
        {
            let run = self.running.value_at(i);
            let ghost before = r.deep_view();
            proof {
                assert(entries.take(i + 1).drop_last() =~= entries.take(i as int));
                assert(entries.take(i + 1).last() == entries[i as int]);
                assert(entries[i as int] == (self.running.entries()[i as int].0, run@));
            }
            let last = match run.entry.session.last_codex_timestamp {
                Some(at) => at,
                None => run.entry.started_at,
            };
            if now.millis_since(last) > timeout_ms {
                let id = self.running.key_at(i).to_owned();
                let ghost id_view = id@;
                r.push(id);
                proof {
                    assert(r.deep_view() =~= before.push(id_view));
                }
            }
        }
        proof {
            assert(entries.take(n as int) =~= entries);
        }
        r
    }

    /// Tell the runs to stop that have been silent for too long, where there is a limit to that.
    pub fn reconcile_stalled_runs(&mut self, now: Timestamp) -> (r: Vec<Effect>)
        ensures
            (final(self)@, r.deep_view()) == if old(self)@.config.codex.stall_timeout_ms <= 0 {
                (old(self)@, seq![])
            } else {
                old(self)@.stopping_all(
                    stalled_ids(
                        old(self).running.entry_views(),
                        old(self)@.config.codex.stall_timeout_ms,
                        now,
                    ),
                    StopReason::Stall,
                )
            },
            old(self)@.config.codex.stall_timeout_ms > 0 ==> keys_differ(
                old(self).running.entry_views(),
            ) && map_of(old(self).running.entry_views()) == old(self)@.running,
    {
        let timeout_ms = self.config.codex.stall_timeout_ms;
        if timeout_ms <= 0 {
            return no_effects();
        }
        let ghost start = self@;
        let ids = self.find_stalled(timeout_ms, now);
        let ghost all = ids.deep_view();
        let mut effects = no_effects();
        for i in 0..ids.len()
            invariant
                all == ids.deep_view(),
                all.len() == ids@.len(),
                (self@, effects.deep_view()) == start.stopping_all(
                    all.take(i as int),
                    StopReason::Stall,
                ),
        {
            proof {
                assert(all.take(i + 1).drop_last() =~= all.take(i as int));
                assert(all.take(i + 1).last() == ids@[i as int]@);
            }
            let more = self.cancel_running_issue(ids[i].as_str(), StopReason::Stall);
            effects = with_effects(effects, more);
        }
        proof {
            assert(all.take(ids@.len() as int) =~= all);
        }
        effects
    }

    fn face_issue(&mut self, issue_id: &str, refreshed: &Vec<Issue>) -> (r: Vec<Effect>)
        ensures
            (final(self)@, r.deep_view()) == old(self)@.facing(issue_id@, refreshed.deep_view()),
    {
        match find_last_with_id(refreshed, issue_id) {
            None => no_effects(),
            Some(issue) => if self.config.is_terminal_state(issue.state.as_str()) {
                self.cancel_running_issue(issue_id, StopReason::Terminal)
            } else if self.config.is_active_state(issue.state.as_str()) {
                proof {
                    lemma_deep_remove(self.running@, issue_id@);
                }
                match self.running.remove(issue_id) {
                    Some(run) => {
                        let mut run = run;
                        run.entry.issue = issue.clone();
                        proof {
                            lemma_deep_insert(self.running@, issue_id@, run);
                            assert(old(self)@.running.remove(issue_id@).insert(issue_id@, run@)
                                =~= old(self)@.running.insert(issue_id@, run@));
                        }
                        let _ = self.running.insert(issue_id.to_owned(), run);
                    },
                    None => {
                        proof {
                            assert(old(self)@.running.remove(issue_id@) =~= old(self)@.running);
                        }
                    },
                }
                no_effects()
            } else {
                self.cancel_running_issue(issue_id, StopReason::NonActive)
            },
        }
    }

    /// Take in how the tracker says that the running issues stand.
    pub fn reconcile_running_issues(&mut self, running_ids: &Vec<String>, refreshed: &Vec<Issue>) -> (r:
        Vec<Effect>)
        ensures
            (final(self)@, r.deep_view()) == old(self)@.facing_all(
                running_ids.deep_view(),
                refreshed.deep_view(),
            ),
    {
        let ghost start = self@;
        let ghost all = running_ids.deep_view();
        let mut effects = no_effects();
        for i in 0..running_ids.len()
            invariant
                all == running_ids.deep_view(),
                all.len() == running_ids@.len(),
                (self@, effects.deep_view()) == start.facing_all(
                    all.take(i as int),
                    refreshed.deep_view(),
                ),
        {
            proof {
                assert(all.take(i + 1).drop_last() =~= all.take(i as int));
                assert(all.take(i + 1).last() == running_ids@[i as int]@);
            }
            let more = self.face_issue(running_ids[i].as_str(), refreshed);
            effects = with_effects(effects, more);
        }
        proof {
            assert(all.take(running_ids@.len() as int) =~= all);
        }
        effects
    }

    /// Whether the totals still fit in 64 bits after a session has told its news.
    pub fn has_room_for_update(&self, update: &SessionUpdate) -> (r: bool)
        ensures
            r == self@.can_hear(update@),
    {
        match &update.absolute_tokens {
            Some(tokens) => match self.running.get(update.issue_id.as_str()) {
                Some(run) => {
                    let live = &run.entry.session;
                    let totals = &self.codex_totals;
                    sum_fits(
                        totals.input_tokens,
                        tokens.input_tokens,
                        live.last_reported_input_tokens,
                    ) && sum_fits(
                        totals.output_tokens,
                        tokens.output_tokens,
                        live.last_reported_output_tokens,
                    ) && sum_fits(
                        totals.total_tokens,
                        tokens.total_tokens,
                        live.last_reported_total_tokens,
                    )
                },
                None => true,
            },
            None => true,
        }
    }

    /// Take in the news of a session.
    pub fn apply_session_update(&mut self, update: SessionUpdate)
        requires
            old(self)@.can_hear(update@),
        ensures
            final(self)@ == old(self)@.hearing(update@),
    {
        proof {
            lemma_deep_remove(self.running@, update.issue_id@);
        }
        let ghost news = update@;
        match self.running.remove(update.issue_id.as_str()) {
            Some(run) => {
                let mut run = run;
                let ghost before = run@;
                let event_message = match &update.message {
                    Some(message) => {
                        run.entry.session.last_codex_message = Some(message.clone());
                        message.clone()
                    },
                    None => String::new(),
                };
                proof {
                    if update.message is None {
                        assert(event_message@ =~= seq![]);
                    }
                }
                let tells = event_tells_error(update.event.as_str());
                run.entry.session.last_codex_event = Some(update.event.clone());
                run.entry.session.last_codex_timestamp = Some(update.at);
                run.entry.session.codex_app_server_pid = update.pid;
                run.entry.session.thread_id = update.thread_id;
                run.entry.session.turn_id = update.turn_id;
                run.entry.session.session_id = update.session_id;
                match update.turn_count {
                    Some(turn_count) => {
                        run.entry.session.turn_count = turn_count;
                    },
                    None => {},
                }
                proof {
                    assert(run@.entry.session == told_news(before.entry.session, news));
                }
                match update.absolute_tokens {
                    Some(tokens) => {
                        let mut totals = self.codex_totals;
                        apply_absolute_tokens(&mut run.entry.session, &mut totals, &tokens);
                        self.codex_totals = totals;
                    },
                    None => {},
                }
                match update.rate_limits {
                    Some(limits) => {
                        self.rate_limits = Some(limits);
                    },
                    None => {},
                }
                let ghost events = run.entry.recent_events.deep_view();
                run.entry.recent_events.push(
                    RecentEvent {
                        at: update.at,
                        event: update.event,
                        message: event_message.clone(),
                    },
                );
                proof {
                    assert(run.entry.recent_events.deep_view() =~= events.push(
                        RecentEventView {
                            at: news.at,
                            event: news.event,
                            message: event_message@,
                        },
                    ));
                }
                keep_latest_events(&mut run.entry.recent_events);
                if tells {
                    run.entry.last_error = Some(event_message);
                }
                proof {
                    assert(run@.entry == told_run(before.entry, news));
                    lemma_deep_insert(self.running@, news.issue_id, run);
                    assert(old(self)@.running.remove(news.issue_id).insert(news.issue_id, run@)
                        =~= old(self)@.running.insert(news.issue_id, run@));
                }
                let _ = self.running.insert(update.issue_id, run);
            },
            None => {
                proof {
                    assert(old(self)@.running.remove(news.issue_id) =~= old(self)@.running);
                }
            },
        }
    }

    /// Whether a run can be tried again after its end.
    pub fn has_room_for_end(&self, outcome: &WorkerOutcome, now: Timestamp) -> (r: bool)
        ensures
            r == self@.can_end(outcome@, now),
    {
        match self.running.get(outcome.issue.id.as_str()) {
            Some(run) => {
                let attempt = match run.entry.retry_attempt {
                    Some(attempt) => if attempt == u32::MAX {
                        return false;
                    } else {
                        attempt + 1
                    },
                    None => 1,
                };
                let delay = match (run.stop_reason, outcome.exit) {
                    (None, WorkerExit::Succeeded) => FOLLOW_UP_MS,
                    _ => retry_delay_ms(attempt, self.config.agent.max_retry_backoff_ms),
                };
                match run.stop_reason {
                    Some(StopReason::Terminal) => true,
                    Some(StopReason::NonActive) => true,
                    _ => now.has_room_for(
                        #[verifier::truncate]
                        (delay as i64),
                    ),
                }
            },
            None => true,
        }
    }

    /// Take in the outcome of a run.
    pub fn handle_worker_finished(&mut self, outcome: WorkerOutcome, now: Timestamp) -> (r: Vec<
        Effect,
    >)
        requires
            old(self)@.can_end(outcome@, now),
        ensures
            (final(self)@, r.deep_view()) == old(self)@.ending(outcome@, now),
    {
        let id = outcome.issue.id.clone();
        let identifier = outcome.issue.identifier.clone();
        proof {
            lemma_deep_remove(self.running@, id@);
        }
        let run = match self.running.remove(id.as_str()) {
            Some(run) => run,
            None => {
                proof {
                    assert(old(self)@.running.remove(id@) =~= old(self)@.running);
                }
                return no_effects();
            },
        };
        let mut totals = self.codex_totals;
        add_runtime(&mut totals, run.entry.started_at, now);
        self.codex_totals = totals;
        proof {
            assert(self@ == old(self)@.without_run(id@, now));
        }
        let attempt = match run.entry.retry_attempt {
            Some(attempt) => attempt + 1,
            None => 1,
        };
        let delay = retry_delay_ms(attempt, self.config.agent.max_retry_backoff_ms);
        match run.stop_reason {
            Some(StopReason::Terminal) => {
                let cleanup = with_effect(no_effects(), Effect::CleanupWorkspace { identifier });
                let effects = self.release_claim(id.as_str());
                proof {
                    assert(cleanup.deep_view() =~= seq![
                        EffectView::CleanupWorkspace { identifier: outcome@.issue.identifier },
                    ]);
                }
                with_effects(cleanup, effects)
            },
            Some(StopReason::NonActive) => self.release_claim(id.as_str()),
            Some(StopReason::Stall) => self.schedule_retry(
                id.as_str(),
                identifier.as_str(),
                attempt,
                Some("stalled session".to_owned()),
                delay,
                now,
            ),
            None => match outcome.exit {
                WorkerExit::Succeeded => {
                    self.completed.insert(id.clone());
                    self.schedule_retry(
                        id.as_str(),
                        identifier.as_str(),
                        1,
                        None,
                        FOLLOW_UP_MS,
                        now,
                    )
                },
                WorkerExit::TimedOut => self.schedule_retry(
                    id.as_str(),
                    identifier.as_str(),
                    attempt,
                    Some("worker turn timeout".to_owned()),
                    delay,
                    now,
                ),
                WorkerExit::Canceled => self.schedule_retry(
                    id.as_str(),
                    identifier.as_str(),
                    attempt,
                    Some("worker canceled".to_owned()),
                    delay,
                    now,
                ),
                WorkerExit::Failed => self.schedule_retry(
                    id.as_str(),
                    identifier.as_str(),
                    attempt,
                    outcome.error,
                    delay,
                    now,
                ),
            },
        }
    }

    /// Take in what a worker tells.
    pub fn handle_worker_event(&mut self, event: WorkerEvent, now: Timestamp) -> (r: Vec<Effect>)
        requires
            match event@ {
                WorkerEventView::Update(update) => old(self)@.can_hear(update),
                WorkerEventView::Finished(outcome) => old(self)@.can_end(outcome, now),
            },
        ensures
            (final(self)@, r.deep_view()) == match event@ {
                WorkerEventView::Update(update) => (old(self)@.hearing(update), seq![]),
                WorkerEventView::Finished(outcome) => old(self)@.ending(outcome, now),
            },
    {
        match event {
            WorkerEvent::Update(update) => {
                self.apply_session_update(update);
                no_effects()
            },
            WorkerEvent::Finished(outcome) => self.handle_worker_finished(outcome, now),
        }
    }

    /// Whether there is a retry of an issue to be made.
    pub fn awaits_retry(&self, issue_id: &str) -> (r: bool)
        ensures
            r == self@.retrying.contains_key(issue_id@),
    {
        self.retry_attempts.contains_key(issue_id)
    }

    /// Take in that the retry of an issue is due, and the issues that may be taken up.
    pub fn handle_retry_due(
        &mut self,
        issue_id: &str,
        fetched: Result<Vec<Issue>, SymphonyError>,
        now: Timestamp,
        current_dir: &CurrentDir,
    ) -> (r: Vec<Effect>)
        requires
            old(self)@.can_retry(issue_id@, offered(fetched), now),
        ensures
            (final(self)@, r.deep_view()) == old(self)@.retrying_now(
                issue_id@,
                offered(fetched),
                now,
                current_dir@,
            ),
    {
        proof {
            lemma_deep_remove(self.retry_attempts@, issue_id@);
        }
        let retry = match self.retry_attempts.remove(issue_id) {
            Some(retry) => retry,
            None => {
                proof {
                    assert(old(self)@.retrying.remove(issue_id@) =~= old(self)@.retrying);
                }
                return no_effects();
            },
        };
        let candidates = match fetched {
            Ok(candidates) => candidates,
            Err(error) => {
                let mut message = "retry poll failed: ".to_owned();
                message.append(error.to_string().as_str());
                let attempt = retry.attempt + 1;
                let delay = retry_delay_ms(attempt, self.config.agent.max_retry_backoff_ms);
                return self.schedule_retry(
                    issue_id,
                    retry.identifier.as_str(),
                    attempt,
                    Some(message),
                    delay,
                    now,
                );
            },
        };
        let issue = match find_first_with_id(&candidates, issue_id) {
            Some(issue) => issue.clone(),
            None => {
                return self.release_claim(issue_id);
            },
        };
        if self.should_dispatch(&issue, Some(issue_id)) {
            self.dispatch_issue(issue, Some(retry.attempt), now, current_dir)
        } else {
            let attempt = retry.attempt + 1;
            let delay = retry_delay_ms(attempt, self.config.agent.max_retry_backoff_ms);
            self.schedule_retry(
                issue.id.as_str(),
                issue.identifier.as_str(),
                attempt,
                Some("no available orchestrator slots".to_owned()),
                delay,
                now,
            )
        }
    }

    fn leads_to_retry(&mut self, issue_id: &str, fetched: &Result<Vec<Issue>, SymphonyError>) -> (r:
        bool)
        ensures
            r == old(self)@.retries_later(issue_id@, offered(*fetched)),
            final(self)@ == old(self)@,
    {
        proof {
            lemma_deep_remove(self.retry_attempts@, issue_id@);
        }
        let retry = match self.retry_attempts.remove(issue_id) {
            Some(retry) => retry,
            None => {
                proof {
                    assert(old(self)@.retrying.remove(issue_id@) =~= old(self)@.retrying);
                }
                return false;
            },
        };
        let r = match fetched {
            Err(_) => true,
            Ok(candidates) => match find_first_with_id(candidates, issue_id) {
                None => false,
                Some(issue) => !self.should_dispatch(issue, Some(issue_id)),
            },
        };
        proof {
            lemma_deep_insert(self.retry_attempts@, issue_id@, retry);
            assert(old(self)@.retrying.remove(issue_id@).insert(issue_id@, retry@) =~= old(
                self,
            )@.retrying);
        }
        let _ = self.retry_attempts.insert(issue_id.to_owned(), retry);
        r
    }

    /// Take in that the retry of an issue is due, as [`OrchestratorState::handle_retry_due`] does.
    /// Where the retry would lead to another that cannot be told, nothing is taken in.
    pub fn try_handle_retry_due(
        &mut self,
        issue_id: &str,
        fetched: Result<Vec<Issue>, SymphonyError>,
        now: Timestamp,
        current_dir: &CurrentDir,
    ) -> (r: Option<Vec<Effect>>)
        ensures
            match r {
                Some(effects) => {
                    &&& old(self)@.can_retry(issue_id@, offered(fetched), now)
                    &&& (final(self)@, effects.deep_view()) == old(self)@.retrying_now(
                        issue_id@,
                        offered(fetched),
                        now,
                        current_dir@,
                    )
                },
                None => {
                    &&& !old(self)@.can_retry(issue_id@, offered(fetched), now)
                    &&& final(self)@ == old(self)@
                },
            },
    {
        if self.leads_to_retry(issue_id, &fetched) {
            match self.retry_attempts.get(issue_id) {
                Some(retry) => {
                    if retry.attempt == u32::MAX {
                        return None;
                    }
                    let delay = retry_delay_ms(
                        retry.attempt + 1,
                        self.config.agent.max_retry_backoff_ms,
                    );
                    if !now.has_room_for(
                        #[verifier::truncate]
                        (delay as i64),
                    ) {
                        return None;
                    }
                },
                None => {},
            }
        }
        Some(self.handle_retry_due(issue_id, fetched, now, current_dir))
    }

    /// Take in another configuration, where one could be loaded and its tracker is known; what runs
    /// goes on. Otherwise the configuration stays.
    pub fn reload_workflow(&mut self, loaded: Result<EffectiveConfig, SymphonyError>) -> (r: Result<
        (),
        SymphonyError,
    >)
        ensures
            match loaded {
                Ok(config) => if config@.tracker.kind == "linear"@ {
                    &&& r is Ok
                    &&& final(self)@ == (OrchestratorView { config: config@, ..old(self)@ })
                } else {
                    &&& r matches Err(error) && error@ == ErrorView::UnsupportedTrackerKind(
                        config@.tracker.kind,
                    )
                    &&& final(self)@ == old(self)@
                },
                Err(error) => {
                    &&& r matches Err(reported) && reported@ == error@
                    &&& final(self)@ == old(self)@
                },
            },
    {
        match loaded {
            Ok(config) => match select_tracker(&config) {
                Ok(_) => {
                    self.config = config;
                    Ok(())
                },
                Err(error) => Err(error),
            },
            Err(error) => Err(error),
        }
    }

    /// Note that a refresh is asked for; whether one was asked for already is returned.
    pub fn request_refresh(&mut self) -> (r: bool)
        ensures
            r == old(self)@.refresh_queued,
            final(self)@ == (OrchestratorView { refresh_queued: true, ..old(self)@ }),
    {
        let coalesced = self.refresh_queued;
        self.refresh_queued = true;
        coalesced
    }

    /// Note that the refresh that was asked for has been made.
    pub fn finish_tick(&mut self)
        ensures
            final(self)@ == (OrchestratorView { refresh_queued: false, ..old(self)@ }),
    {
        self.refresh_queued = false;
    }

    /// What to do when the service stops: every worker is told to stop, and no retry is made.
    pub fn shutdown_effects(&self) -> (r: Vec<Effect>)
        ensures
            r.deep_view() == self.running.entry_views().map_values(
                |entry: (Seq<char>, RunningRuntimeView)|
                    EffectView::CancelWorker { issue_id: entry.0 },
            ) + self.retry_attempts.entry_views().map_values(
                |entry: (Seq<char>, RetryEntryView)| EffectView::AbortRetry { issue_id: entry.0 },
            ),
            keys_differ(self.running.entry_views()),
            map_of(self.running.entry_views()) == self@.running,
            keys_differ(self.retry_attempts.entry_views()),
            map_of(self.retry_attempts.entry_views()) == self@.retrying,
    {
        let n = self.running.size();
        let mut cancels: Vec<Effect> = Vec::new();
        for i in 0..n
            invariant
                n == self.running.entries().len(),
                cancels@.len() == i,
                forall|j: int|
                    0 <= j < i ==> (#[trigger] cancels@[j])@ == (EffectView::CancelWorker {
                        issue_id: self.running.entries()[j].0,
                    }),
        {
            cancels.push(Effect::CancelWorker { issue_id: self.running.key_at(i).to_owned() });
        }
        let m = self.retry_attempts.size();
        let mut aborts: Vec<Effect> = Vec::new();
        for i in 0..m
            invariant
                m == self.retry_attempts.entries().len(),
                aborts@.len() == i,
                forall|j: int|
                    0 <= j < i ==> (#[trigger] aborts@[j])@ == (EffectView::AbortRetry {
                        issue_id: self.retry_attempts.entries()[j].0,
                    }),
        {
            aborts.push(Effect::AbortRetry { issue_id: self.retry_attempts.key_at(i).to_owned() });
        }
        proof {
            assert(cancels.deep_view() =~= self.running.entry_views().map_values(
                |entry: (Seq<char>, RunningRuntimeView)|
                    EffectView::CancelWorker { issue_id: entry.0 },
            ));
            assert(aborts.deep_view() =~= self.retry_attempts.entry_views().map_values(
                |entry: (Seq<char>, RetryEntryView)| EffectView::AbortRetry { issue_id: entry.0 },
            ));
        }
        with_effects(cancels, aborts)
    }
}

/// The issues that the tracker offers, or why it does not.
pub open spec fn offered(fetched: Result<Vec<Issue>, SymphonyError>) -> Result<
    Seq<IssueView>,
    ErrorView,
> {
    match fetched {
        Ok(issues) => Ok(issues.deep_view()),
        Err(error) => Err(error@),
    }
}

/// What to do about issues that are found finished when the service starts: their workspaces are
/// removed.
pub fn startup_cleanup_effects(issues: &Vec<Issue>) -> (r: Vec<Effect>)
    ensures
        r.deep_view() == issues.deep_view().map_values(
            |issue: IssueView| EffectView::CleanupWorkspace { identifier: issue.identifier },
        ),
{
    let mut r: Vec<Effect> = Vec::new();
    for i in 0..issues.len()
        invariant
            r@.len() == i,
            forall|j: int|
                0 <= j < i ==> (#[trigger] r@[j])@ == (EffectView::CleanupWorkspace {
                    identifier: issues@[j].identifier@,
                }),
    {
        r.push(Effect::CleanupWorkspace { identifier: issues[i].identifier.clone() });
    }
    proof {
        assert(r.deep_view() =~= issues.deep_view().map_values(
            |issue: IssueView| EffectView::CleanupWorkspace { identifier: issue.identifier },
        ));
    }
    r
}

/// The port that the HTTP server listens on: the one of the command line, else that of the
/// configuration.
pub fn listening_port(asked: Option<u16>, config: &EffectiveConfig) -> (r: Option<u16>)
    ensures
        r == match asked {
            Some(port) => Some(port),
            None => config@.server.port,
        },
{
    match asked {
        Some(port) => Some(port),
        None => config.server.port,
    }
}

/// A scheduler that knows of no issue.
pub open spec fn idle(config: EffectiveConfigView) -> OrchestratorView {
    OrchestratorView {
        config,
        running: Map::empty(),
        claimed: Set::empty(),
        retrying: Map::empty(),
        completed: Set::empty(),
        totals: CodexTotals {
            input_tokens: 0,
            output_tokens: 0,
            total_tokens: 0,
            millis_running: 0,
        },
        rate_limits: None,
        refresh_queued: false,
    }
}

} // verus!
