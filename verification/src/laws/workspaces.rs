//! Where workspaces are, and how they come and go.
use vstd::prelude::*;
use vstd::utf8::{encode_utf8, is_char_boundary};

use crate::error::ErrorView;
use crate::lifecycle::{
    PreparationStageView, PreparationView, RemovalStageView, RemovalView, WorkspaceActionView,
    WorkspaceEventView,
};
use crate::path::{
    absolute_parts, is_within, joined_names, lemma_parts_of_joined, lemma_parts_of_name, normalized,
    path_join, path_parts, resolved, same_path,
};
use crate::text::{byte_head, decimal, trimmed, utf8_lossy};
use crate::types::WorkspaceView;
use crate::workspace::{
    has_hook_message, hook_path, hook_result, log_path, session_path, workspace_key, workspace_path,
    CurrentDirView, HookRun, PathKind,
};

verus! {

// ---------------------------------------------------------------------------
// Names and paths
// ---------------------------------------------------------------------------

/// The name of a workspace keeps the letters and digits of ASCII, full stops, underscores and hyphens, and
/// has an underscore for every other character.
pub proof fn lemma_name_of_a_workspace(identifier: Seq<char>)
    ensures
        workspace_key(identifier).len() == identifier.len(),
        forall|i: int|
            0 <= i < identifier.len() ==> #[trigger] workspace_key(identifier)[i] == {
                let c = identifier[i];
                if 'a' <= c <= 'z' || 'A' <= c <= 'Z' || '0' <= c <= '9' || c == '.' || c == '_' || c
                    == '-' {
                    c
                } else {
                    '_'
                }
            },
{
}

/// A path behind another is its continuation, with one slash between them, unless it starts at the root.
pub proof fn lemma_join(base: Seq<char>, tail: Seq<char>)
    ensures
        tail.len() > 0 && tail[0] == '/' ==> path_join(base, tail) == tail,
        (tail.len() == 0 || tail[0] != '/') && (base.len() == 0 || base.last() == '/') ==> path_join(
            base,
            tail,
        ) == base + tail,
        (tail.len() == 0 || tail[0] != '/') && base.len() > 0 && base.last() != '/' ==> path_join(
            base,
            tail,
        ) == base + seq!['/'] + tail,
{
}

/// The names of a path are what stands between its slashes, but for nothing and a full stop.
pub proof fn lemma_names_of_a_path(name: Seq<char>, rest: Seq<char>)
    requires
        !name.contains('/'),
    ensures
        path_parts(name) == if name.len() == 0 || name == seq!['.'] {
            Seq::<Seq<char>>::empty()
        } else {
            seq![name]
        },
        path_parts(name + seq!['/'] + rest) == path_parts(name) + path_parts(rest),
{
    lemma_parts_of_name(name);
    lemma_parts_of_joined(name, rest);
}

/// Two full stops take the name before them away, where there is one; every other name stays.
pub proof fn lemma_resolution(parts: Seq<Seq<char>>, name: Seq<char>)
    ensures
        resolved(Seq::empty()).len() == 0,
        name != seq!['.', '.'] ==> resolved(parts.push(name)) == resolved(parts).push(name),
        name == seq!['.', '.'] && resolved(parts).len() > 0 ==> resolved(parts.push(name)) == resolved(
            parts,
        ).drop_last(),
        name == seq!['.', '.'] && resolved(parts).len() == 0 ==> resolved(parts.push(name)).len() == 0,
{
    assert(parts.push(name).drop_last() =~= parts);
}

/// An absolute path is resolved by itself, and any other behind the current directory; the text is that of
/// the names behind slashes.
pub proof fn lemma_normal_form(dir: Seq<char>, path: Seq<char>)
    ensures
        path.len() > 0 && path[0] == '/' ==> {
            &&& absolute_parts(dir, path) == resolved(path_parts(path))
            &&& normalized(dir, path) == seq!['/'] + joined_names(resolved(path_parts(path)))
        },
        (path.len() == 0 || path[0] != '/') && dir.len() > 0 && dir[0] == '/' ==> {
            &&& absolute_parts(dir, path) == resolved(path_parts(path_join(dir, path)))
            &&& normalized(dir, path) == seq!['/'] + joined_names(
                resolved(path_parts(path_join(dir, path))),
            )
        },
{
    if (path.len() == 0 || path[0] != '/') && dir.len() > 0 && dir[0] == '/' {
        assert(path_join(dir, path)[0] == '/');
    }
}

/// Names are joined by a slash between each two.
pub proof fn lemma_joined_names(parts: Seq<Seq<char>>, name: Seq<char>)
    ensures
        joined_names(Seq::empty()).len() == 0,
        joined_names(seq![name]) == name,
        parts.len() > 0 ==> joined_names(parts.push(name)) == joined_names(parts) + seq!['/'] + name,
{
    assert(parts.push(name).drop_last() =~= parts);
}

/// A path lies within an absolute one if it begins with the same names, all of them.
pub proof fn lemma_containment(dir: Seq<char>, root: Seq<char>, path: Seq<char>)
    requires
        root.len() > 0 && root[0] == '/',
        path.len() > 0 && path[0] == '/',
    ensures
        is_within(dir, root, path) <==> {
            let above = resolved(path_parts(root));
            let below = resolved(path_parts(path));
            above.len() <= below.len() && forall|i: int|
                0 <= i < above.len() ==> #[trigger] below[i] == above[i]
        },
{
    let above = resolved(path_parts(root));
    let below = resolved(path_parts(path));
    if above.is_prefix_of(below) {
        assert forall|i: int| 0 <= i < above.len() implies #[trigger] below[i] == above[i] by {
            assert(below.subrange(0, above.len() as int)[i] == above[i]);
        }
    }
    if above.len() <= below.len() && forall|i: int|
        0 <= i < above.len() ==> #[trigger] below[i] == above[i] {
        assert(above =~= below.subrange(0, above.len() as int));
    }
}

/// A relative path cannot be followed where the current directory is not known; every other leads to its
/// normal form. A path is contained in a root if both can be followed and the one lies within the other,
/// and escapes it otherwise.
pub proof fn lemma_following(dir: CurrentDirView, root: Seq<char>, path: Seq<char>)
    ensures
        dir is Known || (path.len() > 0 && path[0] == '/') ==> dir.absolute(path) == Ok::<
            Seq<char>,
            ErrorView,
        >(normalized(dir.dir(), path)),
        dir is Unknown && (path.len() == 0 || path[0] != '/') ==> dir.absolute(path) == Err::<
            Seq<char>,
            ErrorView,
        >(ErrorView::Io(dir->Unknown_0)),
        dir is Known ==> dir.dir() == dir->Known_0,
        dir.absolute(root) is Ok && dir.absolute(path) is Ok ==> {
            &&& dir.containment(root, path) is Ok <==> is_within(dir.dir(), root, path)
            &&& !is_within(dir.dir(), root, path) ==> dir.containment(root, path) == Err::<
                (),
                ErrorView,
            >(
                ErrorView::WorkspacePathEscape {
                    root: dir.absolute(root)->Ok_0,
                    path: dir.absolute(path)->Ok_0,
                },
            )
        },
        dir.absolute(root) is Err ==> dir.containment(root, path) == Err::<(), ErrorView>(
            dir.absolute(root)->Err_0,
        ),
        dir.absolute(root) is Ok && dir.absolute(path) is Err ==> dir.containment(root, path) == Err::<
            (),
            ErrorView,
        >(dir.absolute(path)->Err_0),
{
}

/// A workspace is under its name in the workspace root, if that does not lead out of it. Its hooks run in
/// it, its session too, and its log is below the root, in a directory for logs under the same name.
pub proof fn lemma_places(
    dir: CurrentDirView,
    root: Seq<char>,
    identifier: Seq<char>,
    path: Seq<char>,
    key: Seq<char>,
)
    ensures
        workspace_path(dir, root, identifier) matches Ok(found) ==> {
            &&& dir.absolute(root) is Ok
            &&& dir.absolute(path_join(dir.absolute(root)->Ok_0, workspace_key(identifier))) == Ok::<
                Seq<char>,
                ErrorView,
            >(found)
            &&& is_within(dir.dir(), dir.absolute(root)->Ok_0, found)
        },
        hook_path(dir, root, path) matches Ok(found) ==> {
            &&& dir.absolute(path) == Ok::<Seq<char>, ErrorView>(found)
            &&& dir.absolute(root) is Ok
            &&& is_within(dir.dir(), dir.absolute(root)->Ok_0, found)
        },
        session_path(dir, root, path) matches Ok(found) ==> {
            &&& dir.absolute(path) == Ok::<Seq<char>, ErrorView>(found)
            &&& is_within(dir.dir(), root, path)
        },
        dir.absolute(root) is Err ==> {
            &&& workspace_path(dir, root, identifier) is Err
            &&& session_path(dir, root, path) == Err::<Seq<char>, ErrorView>(
                dir.absolute(root)->Err_0,
            )
            &&& log_path(dir, root, key) == Err::<Seq<char>, ErrorView>(dir.absolute(root)->Err_0)
        },
        dir.absolute(path) is Err ==> hook_path(dir, root, path) == Err::<Seq<char>, ErrorView>(
            dir.absolute(path)->Err_0,
        ),
        dir.absolute(root) is Ok && dir.absolute(path) is Ok ==> {
            &&& session_path(dir, root, path) is Ok <==> is_within(dir.dir(), root, path)
            &&& dir.absolute(dir.absolute(root)->Ok_0) is Ok && dir.absolute(dir.absolute(path)->Ok_0)
                is Ok ==> (hook_path(dir, root, path) is Ok <==> is_within(
                dir.dir(),
                dir.absolute(root)->Ok_0,
                dir.absolute(path)->Ok_0,
            ))
        },
        dir.absolute(root) is Ok ==> log_path(dir, root, key) == Ok::<Seq<char>, ErrorView>(
            path_join(
                path_join(path_join(dir.absolute(root)->Ok_0, ".symphony_logs"@), key),
                "latest.log"@,
            ),
        ),
{
}

/// Two texts are the same path if they have the same names, both or neither start at the root, and both or
/// neither start with a full stop for where one is.
pub proof fn lemma_same_path(a: Seq<char>, b: Seq<char>)
    ensures
        same_path(a, a),
        same_path(a, b) == same_path(b, a),
        same_path(a, b) <==> {
            &&& path_parts(a) == path_parts(b)
            &&& (a.len() > 0 && a[0] == '/') == (b.len() > 0 && b[0] == '/')
            &&& (a == seq!['.'] || (a.len() > 1 && a[0] == '.' && a[1] == '/')) == (b == seq!['.'] || (
            b.len() > 1 && b[0] == '.' && b[1] == '/'))
        },
{
    if a.len() == 1 && a[0] == '.' {
        assert(a =~= seq!['.']);
    }
    if b.len() == 1 && b[0] == '.' {
        assert(b =~= seq!['.']);
    }
}

// ---------------------------------------------------------------------------
// Hooks
// ---------------------------------------------------------------------------

/// A hook has succeeded if and only if it has ended with success. One that has not is told by its name,
/// with what it wrote, without the space around it and up to 300 bytes, or that it took too long.
pub proof fn lemma_hooks(hook: Seq<char>, run: HookRun, timeout_ms: u64)
    ensures
        hook_result(hook, run, timeout_ms) is Ok <==> run is Exited && run->success,
        run is TimedOut ==> hook_result(hook, run, timeout_ms) == Err::<(), ErrorView>(
            ErrorView::HookFailed {
                hook,
                message: "hook timed out after "@ + decimal(timeout_ms as nat) + "ms"@,
            },
        ),
        run matches HookRun::NotRun(error) ==> hook_result(hook, run, timeout_ms) == Err::<
            (),
            ErrorView,
        >(ErrorView::Io(error@)),
        run is Exited && !run->success ==> {
            let output = trimmed(utf8_lossy(run->stderr@));
            hook_result(hook, run, timeout_ms) == Err::<(), ErrorView>(
                ErrorView::HookFailed {
                    hook,
                    message: if output.len() == 0 {
                        "hook exited with a non-zero status"@
                    } else if encode_utf8(output).len() > 300 {
                        byte_head(output, 300) + "..."@
                    } else {
                        output
                    },
                },
            )
        },
{
}

/// What a hook has come to can be told unless it failed and what it wrote has to be cut within a character.
pub proof fn lemma_hooks_that_can_be_told(run: HookRun)
    ensures
        has_hook_message(run) <==> {
            let bytes = encode_utf8(trimmed(utf8_lossy(run->stderr@)));
            !(run is Exited) || run->success || bytes.len() <= 300 || is_char_boundary(bytes, 300)
        },
{
}

// ---------------------------------------------------------------------------
// Preparation
// ---------------------------------------------------------------------------

/// A preparation begins with the workspace root, and with nothing where that cannot be followed. That the
/// workspace itself is refused comes out behind the root.
pub proof fn lemma_beginning_of_a_preparation(
    dir: CurrentDirView,
    root: Seq<char>,
    identifier: Seq<char>,
    script: Option<Seq<char>>,
)
    ensures
        ({
            let begun = PreparationView::beginning(dir, root, identifier, script);
            let place = workspace_path(dir, root, identifier);
            &&& begun.workspace_key == workspace_key(identifier)
            &&& begun.script == script
            &&& dir.absolute(root) matches Err(error) ==> begun.stage
                == PreparationStageView::Finished(Err(error))
            &&& dir.absolute(root) matches Ok(path) ==> {
                &&& begun.root == path
                &&& begun.stage is CreatingRoot
                &&& place is Ok ==> begun.path == place->Ok_0 && begun.stage->refusal is None
                &&& place is Err ==> begun.stage->refusal == Some(place->Err_0)
            }
        }),
{
}

/// A preparation creates the root, looks at the workspace, creates it where nothing stands, clears away
/// what earlier runs left over, and runs the hook in a workspace that it has created. Something else than
/// a directory is refused, a failure ends it, and a hook that fails has the workspace removed again.
pub proof fn lemma_course_of_a_preparation(
    preparation: PreparationView,
    event: WorkspaceEventView,
    error: ErrorView,
)
    ensures
        preparation.stage == (PreparationStageView::CreatingRoot { refusal: None }) ==> {
            &&& preparation.action() == (WorkspaceActionView::CreateRoot { path: preparation.root })
            &&& preparation.next_stage(WorkspaceEventView::Succeeded) is Looking
            &&& preparation.next_stage(WorkspaceEventView::Failed(error))
                == PreparationStageView::Finished(Err(error))
        },
        preparation.stage matches PreparationStageView::CreatingRoot { refusal: Some(refused) } ==> {
            &&& preparation.action() == (WorkspaceActionView::CreateRoot { path: preparation.root })
            &&& preparation.next_stage(WorkspaceEventView::Succeeded)
                == PreparationStageView::Finished(Err(refused))
            &&& preparation.next_stage(WorkspaceEventView::Failed(error))
                == PreparationStageView::Finished(Err(error))
        },
        preparation.stage is Looking ==> {
            &&& preparation.action() == (WorkspaceActionView::Look { path: preparation.path })
            &&& preparation.next_stage(WorkspaceEventView::Found(PathKind::Missing)) is Creating
            &&& preparation.next_stage(WorkspaceEventView::Found(PathKind::Directory))
                == (PreparationStageView::Clearing { created_now: false })
            &&& preparation.next_stage(WorkspaceEventView::Found(PathKind::Other))
                == PreparationStageView::Finished(
                Err(
                    ErrorView::InvalidConfig(
                        "workspace path exists and is not a directory: "@ + preparation.path,
                    ),
                ),
            )
        },
        preparation.stage is Creating ==> {
            &&& preparation.action() == (WorkspaceActionView::Create { path: preparation.path })
            &&& preparation.next_stage(WorkspaceEventView::Succeeded)
                == (PreparationStageView::Clearing { created_now: true })
            &&& preparation.next_stage(WorkspaceEventView::Failed(error))
                == PreparationStageView::Finished(Err(error))
        },
        preparation.stage is Clearing && !(event is Found) ==> {
            let created_now = preparation.stage->created_now;
            &&& preparation.action() == (WorkspaceActionView::Clear {
                paths: seq![
                    path_join(preparation.path, "tmp"@),
                    path_join(preparation.path, ".elixir_ls"@),
                ],
            })
            &&& created_now && preparation.script is Some ==> preparation.next_stage(event) is Hooking
            &&& !created_now || preparation.script is None ==> preparation.next_stage(event)
                == PreparationStageView::Finished(
                Ok(
                    WorkspaceView {
                        path: preparation.path,
                        workspace_key: preparation.workspace_key,
                        created_now,
                    },
                ),
            )
        },
        preparation.stage is Hooking ==> {
            &&& preparation.script is Some ==> preparation.action() == (WorkspaceActionView::RunHook {
                hook: "after_create"@,
                script: preparation.script.unwrap(),
                path: preparation.path,
            })
            &&& preparation.next_stage(WorkspaceEventView::Succeeded)
                == PreparationStageView::Finished(
                Ok(
                    WorkspaceView {
                        path: preparation.path,
                        workspace_key: preparation.workspace_key,
                        created_now: true,
                    },
                ),
            )
            &&& preparation.next_stage(WorkspaceEventView::Failed(error))
                == PreparationStageView::Undoing(error)
        },
        preparation.stage matches PreparationStageView::Undoing(cause) ==> {
            &&& preparation.action() == (WorkspaceActionView::Remove { path: preparation.path })
            &&& !(event is Found) ==> preparation.next_stage(event) == PreparationStageView::Finished(
                Err(cause),
            )
        },
        preparation.stage is Finished ==> preparation.action() is Rest && preparation.next_stage(event)
            == preparation.stage,
        event is Found && !(preparation.stage is Looking) ==> preparation.next_stage(event)
            == preparation.stage,
        !(event is Found) && preparation.stage is Looking ==> preparation.next_stage(event)
            == preparation.stage,
{
}

// ---------------------------------------------------------------------------
// Removal
// ---------------------------------------------------------------------------

/// A removal looks at the workspace, runs the hook where something stands, and removes it whatever comes of
/// the hook. Where nothing stands it has nothing to do.
pub proof fn lemma_course_of_a_removal(
    dir: CurrentDirView,
    root: Seq<char>,
    identifier: Seq<char>,
    script: Option<Seq<char>>,
    removal: RemovalView,
    event: WorkspaceEventView,
    kind: PathKind,
    error: ErrorView,
)
    ensures
        workspace_path(dir, root, identifier) matches Ok(path) ==> RemovalView::beginning(
            dir,
            root,
            identifier,
            script,
        ) == (RemovalView { path, script, stage: RemovalStageView::Looking }),
        workspace_path(dir, root, identifier) matches Err(refused) ==> RemovalView::beginning(
            dir,
            root,
            identifier,
            script,
        ).stage == RemovalStageView::Finished(Err(refused)),
        removal.stage is Looking ==> {
            &&& removal.action() == (WorkspaceActionView::Look { path: removal.path })
            &&& kind == PathKind::Missing ==> removal.next_stage(WorkspaceEventView::Found(kind))
                == RemovalStageView::Finished(Ok(()))
            &&& kind != PathKind::Missing && removal.script is Some ==> removal.next_stage(
                WorkspaceEventView::Found(kind),
            ) is Hooking
            &&& kind != PathKind::Missing && removal.script is None ==> removal.next_stage(
                WorkspaceEventView::Found(kind),
            ) is Removing
            &&& !(event is Found) ==> removal.next_stage(event) == removal.stage
        },
        removal.stage is Hooking ==> {
            &&& removal.script is Some ==> removal.action() == (WorkspaceActionView::RunHook {
                hook: "before_remove"@,
                script: removal.script.unwrap(),
                path: removal.path,
            })
            &&& !(event is Found) ==> removal.next_stage(event) is Removing
        },
        removal.stage is Removing ==> {
            &&& removal.action() == (WorkspaceActionView::Remove { path: removal.path })
            &&& removal.next_stage(WorkspaceEventView::Succeeded) == RemovalStageView::Finished(Ok(()))
            &&& removal.next_stage(WorkspaceEventView::Failed(error)) == RemovalStageView::Finished(
                Err(error),
            )
        },
        removal.stage is Finished ==> removal.action() is Rest && removal.next_stage(event)
            == removal.stage,
        event is Found && !(removal.stage is Looking) ==> removal.next_stage(event) == removal.stage,
{
}

} // verus!
