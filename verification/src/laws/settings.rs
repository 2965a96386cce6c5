//! What a workflow file asks for, and what is taken where it asks for nothing.
use vstd::prelude::*;

use crate::config::{
    dispatch_problem, effective_config, parse_hook_timeout, parse_i64, parse_u32, parse_u64,
    parse_usize, state_limits, EnvironmentView, IntLike, RawWorkflowConfig, StringOrVec,
};
use crate::error::ErrorView;
use crate::json::JsonView;
use crate::path::path_join;
use crate::text::{i64_literal, list_items, trimmed, unicode_lowercase};
use crate::types::EffectiveConfigView;

verus! {

/// The integer that is asked for, where there is one: an integer, or a text that spells one.
pub open spec fn asked_integer(value: Option<IntLike>) -> Option<i64> {
    match value {
        Some(IntLike::Integer(n)) => Some(n),
        Some(IntLike::String(text)) => i64_literal(text@),
        None => None,
    }
}

/// What is asked for of the tracker is taken over as it is: its kind, its endpoint, its project, and the
/// lists of active and of terminal states, which may also be texts with commas. Only what is not asked
/// for is taken by default.
pub proof fn lemma_tracker_settings(
    path: Seq<char>,
    prompt_template: Seq<char>,
    raw: RawWorkflowConfig,
    env: EnvironmentView,
)
    ensures
        effective_config(path, prompt_template, raw, env) matches Ok(config) ==> {
            let tracker = config.tracker;
            let asked = raw.tracker;
            &&& tracker.kind == (if asked is Some && asked.unwrap().kind is Some {
                asked.unwrap().kind.unwrap()@
            } else {
                "linear"@
            })
            &&& tracker.endpoint == (if asked is Some && asked.unwrap().endpoint is Some {
                asked.unwrap().endpoint.unwrap()@
            } else {
                "https://api.linear.app/graphql"@
            })
            &&& tracker.project_slug == (if asked is Some && asked.unwrap().project_slug is Some {
                asked.unwrap().project_slug.unwrap()@
            } else {
                Seq::<char>::empty()
            })
            &&& if asked is Some && asked.unwrap().active_states is Some {
                match asked.unwrap().active_states.unwrap() {
                    StringOrVec::Many(states) => tracker.active_states.len() == states@.len()
                        && forall|i: int|
                        0 <= i < states@.len() ==> #[trigger] tracker.active_states[i]
                            == states@[i]@,
                    StringOrVec::One(text) => tracker.active_states == list_items(text@),
                }
            } else {
                tracker.active_states == seq!["Todo"@, "In Progress"@]
            }
            &&& if asked is Some && asked.unwrap().terminal_states is Some {
                match asked.unwrap().terminal_states.unwrap() {
                    StringOrVec::Many(states) => tracker.terminal_states.len() == states@.len()
                        && forall|i: int|
                        0 <= i < states@.len() ==> #[trigger] tracker.terminal_states[i]
                            == states@[i]@,
                    StringOrVec::One(text) => tracker.terminal_states == list_items(text@),
                }
            } else {
                tracker.terminal_states == seq![
                    "Closed"@,
                    "Cancelled"@,
                    "Canceled"@,
                    "Duplicate"@,
                    "Done"@,
                ]
            }
        },
{
}

/// The key is the one that is asked for. Where that is a dollar sign and a name it is the value of the
/// variable of that name, if that is not blank; and without one it is the value of `LINEAR_API_KEY`, if
/// that is not blank.
pub proof fn lemma_tracker_key(
    path: Seq<char>,
    prompt_template: Seq<char>,
    raw: RawWorkflowConfig,
    env: EnvironmentView,
)
    ensures
        effective_config(path, prompt_template, raw, env) matches Ok(config) ==> {
            let key = config.tracker.api_key;
            let asked = if raw.tracker is Some {
                raw.tracker.unwrap().api_key
            } else {
                None
            };
            let fallback = if env.variables.dom().contains("LINEAR_API_KEY"@) && trimmed(
                env.variables["LINEAR_API_KEY"@],
            ).len() > 0 {
                env.variables["LINEAR_API_KEY"@]
            } else {
                Seq::<char>::empty()
            };
            match asked {
                Some(text) => if text@.len() == 0 || text@[0] != '$' {
                    key == text@
                } else if env.variables.dom().contains(text@.skip(1)) && trimmed(
                    env.variables[text@.skip(1)],
                ).len() > 0 {
                    key == env.variables[text@.skip(1)]
                } else {
                    key == fallback
                },
                None => key == fallback,
            }
        },
{
}

/// The hooks are those that are asked for, and none but those; they have the time that is asked for, if
/// it is positive, and else a minute.
pub proof fn lemma_hook_settings(
    path: Seq<char>,
    prompt_template: Seq<char>,
    raw: RawWorkflowConfig,
    env: EnvironmentView,
)
    ensures
        effective_config(path, prompt_template, raw, env) matches Ok(config) ==> match raw.hooks {
            Some(hooks) => {
                &&& config.hooks.after_create.is_some() == hooks.after_create.is_some()
                &&& hooks.after_create is Some ==> config.hooks.after_create.unwrap()
                    == hooks.after_create.unwrap()@
                &&& config.hooks.before_run.is_some() == hooks.before_run.is_some()
                &&& hooks.before_run is Some ==> config.hooks.before_run.unwrap()
                    == hooks.before_run.unwrap()@
                &&& config.hooks.after_run.is_some() == hooks.after_run.is_some()
                &&& hooks.after_run is Some ==> config.hooks.after_run.unwrap()
                    == hooks.after_run.unwrap()@
                &&& config.hooks.before_remove.is_some() == hooks.before_remove.is_some()
                &&& hooks.before_remove is Some ==> config.hooks.before_remove.unwrap()
                    == hooks.before_remove.unwrap()@
                &&& config.hooks.timeout_ms == if asked_integer(hooks.timeout_ms) is Some
                    && asked_integer(hooks.timeout_ms).unwrap() > 0 {
                    asked_integer(hooks.timeout_ms).unwrap() as u64
                } else {
                    60_000
                }
            },
            None => {
                &&& config.hooks.after_create is None
                &&& config.hooks.before_run is None
                &&& config.hooks.after_run is None
                &&& config.hooks.before_remove is None
                &&& config.hooks.timeout_ms == 60_000
            },
        },
{
}

/// A number that is asked for is taken over, if it is not below the least that is allowed.
pub open spec fn number_or(value: Option<IntLike>, least: i64, default: int) -> int {
    match asked_integer(value) {
        Some(n) => if n >= least {
            n as int
        } else {
            default
        },
        None => default,
    }
}

/// The numbers that are asked for are taken over, where they are allowed: how often is polled, how many
/// agents run, how many turns they have, how long they wait, and how long is waited for them.
pub proof fn lemma_numbers(
    path: Seq<char>,
    prompt_template: Seq<char>,
    raw: RawWorkflowConfig,
    env: EnvironmentView,
)
    ensures
        effective_config(path, prompt_template, raw, env) matches Ok(config) ==> {
            &&& config.workflow_path == path
            &&& config.prompt_template == prompt_template
            &&& config.polling.interval_ms == number_or(
                if raw.polling is Some {
                    raw.polling.unwrap().interval_ms
                } else {
                    None
                },
                0,
                30_000,
            )
            &&& config.server.port == if raw.server is Some {
                raw.server.unwrap().port
            } else {
                None
            }
            &&& match raw.agent {
                Some(agent) => {
                    &&& number_or(agent.max_concurrent_agents, 1, 10) <= usize::MAX
                        ==> config.agent.max_concurrent_agents == number_or(
                        agent.max_concurrent_agents,
                        1,
                        10,
                    )
                    &&& number_or(agent.max_turns, 0, 20) <= u32::MAX ==> config.agent.max_turns
                        == number_or(agent.max_turns, 0, 20)
                    &&& config.agent.max_retry_backoff_ms == number_or(
                        agent.max_retry_backoff_ms,
                        0,
                        300_000,
                    )
                    &&& agent.max_concurrent_agents_by_state is None
                        ==> config.agent.max_concurrent_agents_by_state.dom() == Set::<
                        Seq<char>,
                    >::empty()
                    &&& agent.max_concurrent_agents_by_state is Some
                        ==> config.agent.max_concurrent_agents_by_state == state_limits(
                        agent.max_concurrent_agents_by_state.unwrap().entries(),
                    )
                },
                None => {
                    &&& config.agent.max_concurrent_agents == 10
                    &&& config.agent.max_turns == 20
                    &&& config.agent.max_retry_backoff_ms == 300_000
                    &&& config.agent.max_concurrent_agents_by_state.dom() == Set::<
                        Seq<char>,
                    >::empty()
                },
            }
            &&& match raw.codex {
                Some(codex) => {
                    &&& config.codex.turn_timeout_ms == number_or(
                        codex.turn_timeout_ms,
                        0,
                        3_600_000,
                    )
                    &&& config.codex.read_timeout_ms == number_or(codex.read_timeout_ms, 0, 5_000)
                    &&& config.codex.stall_timeout_ms == number_or(
                        codex.stall_timeout_ms,
                        i64::MIN,
                        300_000,
                    )
                },
                None => {
                    &&& config.codex.turn_timeout_ms == 3_600_000
                    &&& config.codex.read_timeout_ms == 5_000
                    &&& config.codex.stall_timeout_ms == 300_000
                },
            }
        },
{
    if let Ok(config) = effective_config(path, prompt_template, raw, env) {
        assert(Map::<Seq<char>, usize>::empty().dom() =~= Set::<Seq<char>>::empty());
    }
}

/// Of Codex what is asked for is taken over as it is: how it is started, and what it may do.
pub proof fn lemma_codex_settings(
    path: Seq<char>,
    prompt_template: Seq<char>,
    raw: RawWorkflowConfig,
    env: EnvironmentView,
)
    ensures
        effective_config(path, prompt_template, raw, env) matches Ok(config) ==> {
            let asked = raw.codex;
            &&& config.codex.command == (if asked is Some && asked.unwrap().command is Some {
                asked.unwrap().command.unwrap()@
            } else {
                "codex app-server"@
            })
            &&& config.codex.approval_policy == (if asked is Some && asked.unwrap().approval_policy
                is Some {
                asked.unwrap().approval_policy.unwrap()@
            } else {
                JsonView::String("never"@)
            })
            &&& config.codex.thread_sandbox == (if asked is Some && asked.unwrap().thread_sandbox
                is Some {
                asked.unwrap().thread_sandbox.unwrap()@
            } else {
                JsonView::String("danger-full-access"@)
            })
            &&& config.codex.turn_sandbox_policy == (if asked is Some
                && asked.unwrap().turn_sandbox_policy is Some {
                asked.unwrap().turn_sandbox_policy.unwrap()@
            } else {
                JsonView::Object(seq![("type"@, JsonView::String("dangerFullAccess"@))])
            })
        },
{
}

/// A limit for a state holds if it is a positive number and none such follows for the same state, told
/// apart without regard to case and surrounding white space; and there are no other limits.
pub proof fn lemma_limits_by_state(entries: Seq<(Seq<char>, IntLike)>)
    ensures
        forall|i: int|
            0 <= i < entries.len() && asked_integer(Some((#[trigger] entries[i]).1)) is Some
                && asked_integer(Some(entries[i].1)).unwrap() > 0 && (forall|j: int|
                i < j < entries.len() && unicode_lowercase(trimmed((#[trigger] entries[j]).0))
                    == unicode_lowercase(trimmed(entries[i].0)) ==> asked_integer(
                    Some(entries[j].1),
                ) is None || asked_integer(Some(entries[j].1)).unwrap() <= 0) ==> {
                &&& state_limits(entries).dom().contains(unicode_lowercase(trimmed(entries[i].0)))
                &&& state_limits(entries)[unicode_lowercase(trimmed(entries[i].0))]
                    == asked_integer(Some(entries[i].1)).unwrap() as usize
            },
        forall|state: Seq<char>| #[trigger]
            state_limits(entries).dom().contains(state) ==> exists|i: int|
                0 <= i < entries.len() && unicode_lowercase(trimmed((#[trigger] entries[i]).0))
                    == state && asked_integer(Some(entries[i].1)) is Some && asked_integer(
                    Some(entries[i].1),
                ).unwrap() > 0,
    decreases entries.len(),
{
    if entries.len() > 0 {
        let head = entries.drop_last();
        let last = entries.len() - 1;
        lemma_limits_by_state(head);
        assert forall|i: int|
            0 <= i < entries.len() && asked_integer(Some((#[trigger] entries[i]).1)) is Some
                && asked_integer(Some(entries[i].1)).unwrap() > 0 && (forall|j: int|
                i < j < entries.len() && unicode_lowercase(trimmed((#[trigger] entries[j]).0))
                    == unicode_lowercase(trimmed(entries[i].0)) ==> asked_integer(
                    Some(entries[j].1),
                ) is None || asked_integer(Some(entries[j].1)).unwrap() <= 0) implies {
            &&& state_limits(entries).dom().contains(unicode_lowercase(trimmed(entries[i].0)))
            &&& state_limits(entries)[unicode_lowercase(trimmed(entries[i].0))] == asked_integer(
                Some(entries[i].1),
            ).unwrap() as usize
        } by {
            if i < last {
                assert(head[i] == entries[i]);
                assert forall|j: int|
                    i < j < head.len() && unicode_lowercase(trimmed((#[trigger] head[j]).0))
                        == unicode_lowercase(trimmed(head[i].0)) implies asked_integer(
                    Some(head[j].1),
                ) is None || asked_integer(Some(head[j].1)).unwrap() <= 0 by {
                    assert(head[j] == entries[j]);
                }
                assert(entries[last].0 == entries.last().0);
            }
        }
        assert forall|state: Seq<char>| #[trigger]
            state_limits(entries).dom().contains(state) implies exists|i: int|
            0 <= i < entries.len() && unicode_lowercase(trimmed((#[trigger] entries[i]).0)) == state
                && asked_integer(Some(entries[i].1)) is Some && asked_integer(
                Some(entries[i].1),
            ).unwrap() > 0 by {
            if state_limits(head).dom().contains(state) {
                let i = choose|i: int|
                    0 <= i < head.len() && unicode_lowercase(trimmed((#[trigger] head[i]).0))
                        == state && asked_integer(Some(head[i].1)) is Some && asked_integer(
                        Some(head[i].1),
                    ).unwrap() > 0;
                assert(entries[i] == head[i]);
            } else {
                assert(entries[last] == entries.last());
            }
        }
    }
}

/// The workspaces are where is asked for: at that path, or at the one in the variable that it names, with
/// the home directory of the user in the place of a leading tilde. Where nothing is asked for, they are
/// in a directory of their own among temporary files.
pub proof fn lemma_workspace_root(
    path: Seq<char>,
    prompt_template: Seq<char>,
    raw: RawWorkflowConfig,
    env: EnvironmentView,
)
    ensures
        ({
            let built = effective_config(path, prompt_template, raw, env);
            let asked = if raw.workspace is Some {
                raw.workspace.unwrap().root
            } else {
                None
            };
            let default = path_join(env.temp_dir, "symphony_workspaces"@);
            let text = if asked is Some {
                asked.unwrap()@
            } else {
                default
            };
            let root = if text.len() > 0 && text[0] == '$' {
                if env.variables.dom().contains(text.skip(1)) && trimmed(
                    env.variables[text.skip(1)],
                ).len() > 0 {
                    env.variables[text.skip(1)]
                } else {
                    default
                }
            } else {
                text
            };
            if root == "~"@ || "~/"@.is_prefix_of(root) {
                if env.variables.dom().contains("HOME"@) {
                    built is Ok && built->Ok_0.workspace.root == if root == "~"@ {
                        env.variables["HOME"@]
                    } else {
                        path_join(env.variables["HOME"@], root.skip(2))
                    }
                } else {
                    built == Err::<EffectiveConfigView, ErrorView>(
                        ErrorView::InvalidConfig("HOME is not set"@),
                    )
                }
            } else {
                built is Ok && built->Ok_0.workspace.root == root
            }
        }),
{
}

/// Work can be dispatched if and only if the tracker is Linear and its key, its project and the command
/// that starts Codex are not blank; otherwise the first of these that is wrong is told of.
pub proof fn lemma_dispatch_problem(config: EffectiveConfigView)
    ensures
        dispatch_problem(config) is None <==> {
            &&& trimmed(config.tracker.kind).len() > 0
            &&& config.tracker.kind == "linear"@
            &&& trimmed(config.tracker.api_key).len() > 0
            &&& trimmed(config.tracker.project_slug).len() > 0
            &&& trimmed(config.codex.command).len() > 0
        },
        trimmed(config.tracker.kind).len() == 0 ==> dispatch_problem(config) == Some(
            ErrorView::UnsupportedTrackerKind(Seq::empty()),
        ),
        trimmed(config.tracker.kind).len() > 0 && config.tracker.kind != "linear"@
            ==> dispatch_problem(config) == Some(
            ErrorView::UnsupportedTrackerKind(config.tracker.kind),
        ),
        trimmed(config.tracker.kind).len() > 0 && config.tracker.kind == "linear"@ ==> {
            &&& trimmed(config.tracker.api_key).len() == 0 ==> dispatch_problem(config) == Some(
                ErrorView::MissingTrackerApiKey,
            )
            &&& trimmed(config.tracker.api_key).len() > 0 && trimmed(
                config.tracker.project_slug,
            ).len() == 0 ==> dispatch_problem(config) == Some(
                ErrorView::MissingTrackerProjectSlug,
            )
            &&& trimmed(config.tracker.api_key).len() > 0 && trimmed(
                config.tracker.project_slug,
            ).len() > 0 && trimmed(config.codex.command).len() == 0 ==> dispatch_problem(config)
                == Some(
                ErrorView::InvalidConfig("codex.command must be present and non-empty"@),
            )
        },
{
}

/// A number that is read is the one that is asked for, where it is allowed, and the default otherwise.
pub proof fn lemma_numbers_as_asked(
    value: Option<IntLike>,
    i: (i64, i64),
    u: (u64, u64),
    w: (u32, u32),
    s: (usize, usize),
    timeout: u64,
)
    ensures
        call_ensures(parse_i64, (&value, i.0), i.1) ==> i.1 == if asked_integer(value) is Some {
            asked_integer(value).unwrap()
        } else {
            i.0
        },
        call_ensures(parse_u64, (&value, u.0), u.1) && u.0 <= i64::MAX ==> u.1 == number_or(
            value,
            0,
            u.0 as int,
        ),
        call_ensures(parse_u32, (&value, w.0), w.1) && number_or(value, 0, w.0 as int) <= u32::MAX
            ==> w.1 == number_or(value, 0, w.0 as int),
        call_ensures(parse_usize, (&value, s.0), s.1) && s.0 <= i64::MAX && 0 < s.0 && number_or(
            value,
            1,
            s.0 as int,
        ) <= usize::MAX ==> s.1 == number_or(value, 1, s.0 as int),
        call_ensures(parse_hook_timeout, (&value,), timeout) ==> timeout == number_or(
            value,
            1,
            60_000,
        ),
{
}

} // verus!
