//! How a worker goes about one run on an issue.
use vstd::prelude::*;

use crate::error::{error_text, ErrorView};
use crate::path::path_join;
use crate::text::{decimal, trimmed, unicode_lowercase};
use crate::types::{EffectiveConfigView, IssueView, WorkspaceView};
use crate::worker::{
    new_run, worker_step, WorkerActionView, WorkerExit, WorkerInputView, WorkerOutcomeView,
    WorkerPhase, WorkerRunView,
};
use crate::workspace::{workspace_key, CurrentDirView};

verus! {

/// Two runs are the same but for their phase, and for what became of them.
pub open spec fn same_run(a: WorkerRunView, b: WorkerRunView) -> bool {
    &&& a.config == b.config
    &&& a.attempt == b.attempt
    &&& a.issue == b.issue
    &&& a.workspace_path == b.workspace_path
    &&& a.workspace_key == b.workspace_key
    &&& a.log_path == b.log_path
    &&& a.turn_count == b.turn_count
}

/// A run begins with nothing done and nothing wrong: without turns, in the workspace root, for the issue
/// and the attempt that it is for.
pub proof fn lemma_new_run(
    config: EffectiveConfigView,
    issue: IssueView,
    attempt: Option<u32>,
    current_dir: CurrentDirView,
)
    ensures
        ({
            let run = new_run(config, issue, attempt, current_dir);
            &&& run.config == config
            &&& run.issue == issue
            &&& run.attempt == attempt
            &&& run.workspace_path == config.workspace.root
            &&& run.workspace_key == workspace_key(issue.identifier)
            &&& run.turn_count == 0
            &&& run.exit == WorkerExit::Succeeded
            &&& run.error is None
            &&& run.phase == WorkerPhase::EnsuringWorkspace
            &&& run.log_path == match current_dir.absolute(config.workspace.root) {
                Ok(root) => path_join(
                    path_join(path_join(root, ".symphony_logs"@), workspace_key(issue.identifier)),
                    "latest.log"@,
                ),
                Err(_) => "latest.log"@,
            }
        }),
{
}

/// A run that has its workspace works there from then on, begins a new log, and runs the hook that comes
/// before it, where there is one, or starts its session.
pub proof fn lemma_workspace_is_ready(
    run: WorkerRunView,
    workspace: WorkspaceView,
    current_dir: CurrentDirView,
)
    requires
        run.phase == WorkerPhase::EnsuringWorkspace,
    ensures
        ({
            let (next, actions) = worker_step(
                run,
                WorkerInputView::WorkspaceReady(workspace),
                current_dir,
            );
            &&& next.workspace_path == workspace.path
            &&& next.workspace_key == workspace.workspace_key
            &&& next.log_path == match current_dir.absolute(run.config.workspace.root) {
                Ok(root) => path_join(
                    path_join(path_join(root, ".symphony_logs"@), workspace.workspace_key),
                    "latest.log"@,
                ),
                Err(_) => run.log_path,
            }
            &&& next.config == run.config && next.issue == run.issue && next.attempt == run.attempt
            &&& next.turn_count == run.turn_count && next.exit == run.exit && next.error == run.error
            &&& actions.len() == 2
            &&& actions[0] == (WorkerActionView::InitializeLog { path: next.log_path })
            &&& match run.config.hooks.before_run {
                Some(script) => next.phase == WorkerPhase::BeforeRun && actions[1] == (
                WorkerActionView::RunBeforeRun { script, workspace_path: workspace.path }),
                None => next.phase == WorkerPhase::StartingSession && actions[1] == (
                WorkerActionView::StartSession {
                    workspace_path: workspace.path,
                    log_path: next.log_path,
                }),
            }
        }),
{
}

/// A run goes from the hook before it to its session, from the session to its first turn, which has the
/// rendered prompt and is called after the issue, and from the end of a turn to asking for the issue.
pub proof fn lemma_way_to_a_turn(run: WorkerRunView, prompt: Seq<char>, current_dir: CurrentDirView)
    ensures
        run.phase == WorkerPhase::BeforeRun ==> ({
            let (next, actions) = worker_step(run, WorkerInputView::HookSucceeded, current_dir);
            &&& next == (WorkerRunView { phase: WorkerPhase::StartingSession, ..run })
            &&& actions == seq![
                WorkerActionView::StartSession {
                    workspace_path: run.workspace_path,
                    log_path: run.log_path,
                },
            ]
        }),
        run.phase == WorkerPhase::StartingSession ==> ({
            let (next, actions) = worker_step(run, WorkerInputView::SessionStarted, current_dir);
            &&& next == (WorkerRunView {
                phase: WorkerPhase::RenderingPrompt,
                turn_count: 1,
                ..run
            })
            &&& actions == seq![WorkerActionView::RenderPrompt]
        }),
        run.phase == WorkerPhase::RenderingPrompt ==> ({
            let (next, actions) = worker_step(
                run,
                WorkerInputView::PromptReady(prompt),
                current_dir,
            );
            &&& next == (WorkerRunView { phase: WorkerPhase::RunningTurn, ..run })
            &&& actions == seq![
                WorkerActionView::RunTurn {
                    prompt,
                    title: run.issue.identifier + ": "@ + run.issue.title,
                    turn_count: run.turn_count,
                },
            ]
        }),
        run.phase == WorkerPhase::RunningTurn ==> ({
            let (next, actions) = worker_step(
                run,
                WorkerInputView::TurnEnded { error: None, canceled: false },
                current_dir,
            );
            &&& next == (WorkerRunView { phase: WorkerPhase::RefreshingIssue, ..run })
            &&& actions == seq![WorkerActionView::RefreshIssue { id: run.issue.id }]
        }),
{
}

/// When the tracker has told of the issue, the run takes it over as it was told of last. It goes on with
/// another turn if and only if the issue is in a state that is listed as active and fewer turns were had
/// than there may be; otherwise it stops its session, and does nothing else.
pub proof fn lemma_refreshed_issue_decides(
    run: WorkerRunView,
    issues: Seq<IssueView>,
    current_dir: CurrentDirView,
)
    requires
        run.phase == WorkerPhase::RefreshingIssue,
    ensures
        ({
            let (next, actions) = worker_step(
                run,
                WorkerInputView::IssueRefreshed(issues),
                current_dir,
            );
            let issue = if issues.len() > 0 {
                issues[issues.len() - 1]
            } else {
                run.issue
            };
            let active = exists|i: int|
                0 <= i < run.config.tracker.active_states.len() && unicode_lowercase(
                    trimmed(#[trigger] run.config.tracker.active_states[i]),
                ) == unicode_lowercase(trimmed(issue.state));
            &&& next.issue == issue
            &&& next.config == run.config && next.attempt == run.attempt
            &&& next.workspace_path == run.workspace_path && next.workspace_key == run.workspace_key
            &&& next.log_path == run.log_path && next.exit == run.exit && next.error == run.error
            &&& if active && run.turn_count < run.config.agent.max_turns {
                &&& next.phase == WorkerPhase::RunningTurn
                &&& next.turn_count == run.turn_count + 1
                &&& actions.len() == 1
                &&& actions[0] == (WorkerActionView::RunTurn {
                    prompt: "Continue working on issue "@ + issue.identifier + " ("@ + issue.title
                        + ") in the existing thread. This is continuation turn "@ + decimal(
                        (run.turn_count + 1) as nat,
                    ) + " of "@ + decimal(run.config.agent.max_turns as nat)
                        + ". Retry attempt: "@ + (match run.attempt {
                        Some(n) => decimal(n as nat),
                        None => "initial"@,
                    })
                        + ". Do not repeat the original task prompt. Focus on the next concrete step, keep edits inside the issue workspace, and leave a clear handoff if you are blocked."@,
                    title: issue.identifier + ": "@ + issue.title,
                    turn_count: (run.turn_count + 1) as u32,
                })
            } else {
                &&& next.phase == WorkerPhase::StoppingSession
                &&& next.turn_count == run.turn_count
                &&& actions == seq![WorkerActionView::StopSession]
            }
        }),
{
}

/// No turn after the first is begun but with an issue in a state that is listed as active, whatever
/// happens.
pub proof fn lemma_turns_go_on_with_active_issues_only(
    run: WorkerRunView,
    input: WorkerInputView,
    current_dir: CurrentDirView,
    k: int,
)
    requires
        run.phase != WorkerPhase::RenderingPrompt,
        0 <= k < worker_step(run, input, current_dir).1.len(),
        worker_step(run, input, current_dir).1[k] is RunTurn,
    ensures
        ({
            let issue = worker_step(run, input, current_dir).0.issue;
            exists|i: int|
                0 <= i < run.config.tracker.active_states.len() && unicode_lowercase(
                    trimmed(#[trigger] run.config.tracker.active_states[i]),
                ) == unicode_lowercase(trimmed(issue.state))
        }),
        run.turn_count < run.config.agent.max_turns,
{
    if let WorkerInputView::IssueRefreshed(issues) = input {
        if run.phase == WorkerPhase::RefreshingIssue {
            lemma_refreshed_issue_decides(run, issues, current_dir);
        }
    }
}

/// A turn that ended with an error, or when the worker was canceled, ends the run: canceled where it
/// was, timed out where the turn took too long, and failed otherwise, with what was wrong. The session is
/// stopped, and nothing else is done.
pub proof fn lemma_turn_that_ends_the_run(
    run: WorkerRunView,
    error: Option<ErrorView>,
    canceled: bool,
    current_dir: CurrentDirView,
)
    requires
        run.phase == WorkerPhase::RunningTurn,
        error is Some || canceled,
    ensures
        ({
            let (next, actions) = worker_step(
                run,
                WorkerInputView::TurnEnded { error, canceled },
                current_dir,
            );
            &&& same_run(run, next)
            &&& next.phase == WorkerPhase::StoppingSession
            &&& actions == seq![WorkerActionView::StopSession]
            &&& next.exit == if canceled {
                WorkerExit::Canceled
            } else if error.unwrap() is TurnTimeout {
                WorkerExit::TimedOut
            } else {
                WorkerExit::Failed
            }
            &&& next.error == Some(
                match error {
                    Some(error) => error_text(error),
                    None => "worker canceled"@,
                },
            )
        }),
{
}

/// What goes wrong before or between turns fails the run, with what was wrong: where no session was
/// started the run ends at once if it has no workspace or its first hook fails, and with its last hook
/// otherwise; a session that was started is stopped.
pub proof fn lemma_failures(run: WorkerRunView, error: ErrorView, current_dir: CurrentDirView)
    ensures
        ({
            let failed = WorkerRunView {
                exit: WorkerExit::Failed,
                error: Some(error_text(error)),
                ..run
            };
            let after_run = WorkerActionView::RunAfterRun {
                hook: run.config.hooks.after_run,
                workspace_path: run.workspace_path,
            };
            let finish = WorkerActionView::Finish(
                WorkerOutcomeView {
                    issue: run.issue,
                    attempt: run.attempt,
                    workspace_path: run.workspace_path,
                    workspace_key: run.workspace_key,
                    log_path: run.log_path,
                    exit: WorkerExit::Failed,
                    error: Some(error_text(error)),
                    turn_count: run.turn_count,
                },
            );
            &&& run.phase == WorkerPhase::EnsuringWorkspace ==> worker_step(
                run,
                WorkerInputView::WorkspaceFailed(error),
                current_dir,
            ) == (WorkerRunView { phase: WorkerPhase::Finished, ..failed }, seq![finish])
            &&& run.phase == WorkerPhase::BeforeRun ==> worker_step(
                run,
                WorkerInputView::HookFailed(error),
                current_dir,
            ) == (WorkerRunView { phase: WorkerPhase::Finished, ..failed }, seq![finish])
            &&& run.phase == WorkerPhase::StartingSession ==> worker_step(
                run,
                WorkerInputView::SessionFailed(error),
                current_dir,
            ) == (WorkerRunView { phase: WorkerPhase::AfterRun, ..failed }, seq![after_run])
            &&& run.phase == WorkerPhase::RenderingPrompt ==> worker_step(
                run,
                WorkerInputView::PromptFailed(error),
                current_dir,
            ) == (
                WorkerRunView { phase: WorkerPhase::StoppingSession, ..failed },
                seq![WorkerActionView::StopSession],
            )
            &&& run.phase == WorkerPhase::RefreshingIssue ==> worker_step(
                run,
                WorkerInputView::RefreshFailed(error),
                current_dir,
            ) == (
                WorkerRunView { phase: WorkerPhase::StoppingSession, ..failed },
                seq![WorkerActionView::StopSession],
            )
        }),
{
}

/// When its session has stopped a run has its last hook run, and then reports what it has come to,
/// whether or not that hook succeeded.
pub proof fn lemma_way_out(run: WorkerRunView, error: ErrorView, current_dir: CurrentDirView)
    ensures
        run.phase == WorkerPhase::StoppingSession ==> worker_step(
            run,
            WorkerInputView::SessionStopped,
            current_dir,
        ) == (
            WorkerRunView { phase: WorkerPhase::AfterRun, ..run },
            seq![
                WorkerActionView::RunAfterRun {
                    hook: run.config.hooks.after_run,
                    workspace_path: run.workspace_path,
                },
            ],
        ),
        run.phase == WorkerPhase::AfterRun ==> ({
            let finish = WorkerActionView::Finish(
                WorkerOutcomeView {
                    issue: run.issue,
                    attempt: run.attempt,
                    workspace_path: run.workspace_path,
                    workspace_key: run.workspace_key,
                    log_path: run.log_path,
                    exit: run.exit,
                    error: run.error,
                    turn_count: run.turn_count,
                },
            );
            let done = (WorkerRunView { phase: WorkerPhase::Finished, ..run }, seq![finish]);
            &&& worker_step(run, WorkerInputView::HookSucceeded, current_dir) == done
            &&& worker_step(run, WorkerInputView::HookFailed(error), current_dir) == done
        }),
{
}

/// What a run does not wait for changes nothing.
pub proof fn lemma_unexpected_input(
    run: WorkerRunView,
    input: WorkerInputView,
    current_dir: CurrentDirView,
)
    requires
        !match run.phase {
            WorkerPhase::EnsuringWorkspace => input is WorkspaceReady || input is WorkspaceFailed,
            WorkerPhase::BeforeRun => input is HookSucceeded || input is HookFailed,
            WorkerPhase::StartingSession => input is SessionStarted || input is SessionFailed,
            WorkerPhase::RenderingPrompt => input is PromptReady || input is PromptFailed,
            WorkerPhase::RunningTurn => input is TurnEnded,
            WorkerPhase::RefreshingIssue => input is IssueRefreshed || input is RefreshFailed,
            WorkerPhase::StoppingSession => input is SessionStopped,
            WorkerPhase::AfterRun => input is HookSucceeded || input is HookFailed,
            WorkerPhase::Finished => false,
        },
    ensures
        worker_step(run, input, current_dir) == (run, Seq::<WorkerActionView>::empty()),
{
}

} // verus!
