//! The directories that issues are worked on in, their hooks, and their session logs.
use vstd::prelude::*;

use crate::error::{ErrorView, SymphonyError};
use crate::path::{
    absolute_parts, is_absolute, is_parent_name, is_plain_name, is_void_name, is_within, join_path,
    lemma_normalized, lemma_parts_are_plain, lemma_parts_of_join, lemma_parts_of_name,
    lemma_resolved, lemma_resolved_fixed, normalize_path, normalized, path_is_absolute,
    path_is_within, path_join, path_parts, resolved, seen_from,
};
use crate::text::{
    can_cut, chars_of, decimal, decimal_text, from_utf8_lossy, is_cuttable, shorten, shortened, trim,
    trimmed, utf8_lossy,
};
use crate::time::{chrono_rfc3339, Timestamp};
use crate::types::EffectiveConfig;

verus! {

/// The longest output of a hook that an error repeats, in bytes.
pub const HOOK_OUTPUT_BYTES: usize = 300;

// ---------------------------------------------------------------------------
// Absolute paths
// ---------------------------------------------------------------------------

/// The directory that the process runs in.
#[derive(Debug, PartialEq)]
pub enum CurrentDir {
    Known(String),
    /// It could not be found out; the text is that of the error.
    Unknown(String),
}

/// The mathematical value of a [`CurrentDir`].
pub ghost enum CurrentDirView {
    Known(Seq<char>),
    Unknown(Seq<char>),
}

impl View for CurrentDir {
    type V = CurrentDirView;

    open spec fn view(&self) -> CurrentDirView {
        match *self {
            CurrentDir::Known(dir) => CurrentDirView::Known(dir@),
            CurrentDir::Unknown(error) => CurrentDirView::Unknown(error@),
        }
    }
}

impl CurrentDirView {
    /// The directory; an absolute path does not depend on it.
    pub open spec fn dir(self) -> Seq<char> {
        match self {
            CurrentDirView::Known(dir) => dir,
            CurrentDirView::Unknown(_) => seq![],
        }
    }

    /// The absolute path, without `.`, `..` and doubled slashes, that a path leads to.
    pub open spec fn absolute(self, path: Seq<char>) -> Result<Seq<char>, ErrorView> {
        match self {
            CurrentDirView::Unknown(error) if !is_absolute(path) => Err(ErrorView::Io(error)),
            _ => Ok(normalized(self.dir(), path)),
        }
    }

    /// Whether a path is a directory or lies below it.
    pub open spec fn containment(self, root: Seq<char>, path: Seq<char>) -> Result<(), ErrorView> {
        match (self.absolute(root), self.absolute(path)) {
            (Err(error), _) => Err(error),
            (_, Err(error)) => Err(error),
            (Ok(root_path), Ok(full_path)) => if is_within(self.dir(), root, path) {
                Ok(())
            } else {
                Err(ErrorView::WorkspacePathEscape { root: root_path, path: full_path })
            },
        }
    }
}

impl CurrentDir {
    fn dir(&self) -> (r: &str)
        ensures
            r@ == self@.dir(),
    {
        match self {
            CurrentDir::Known(dir) => dir.as_str(),
            CurrentDir::Unknown(_) => {
                proof {
                    reveal_strlit("");
                    assert(""@ =~= seq![]);
                }
                ""
            },
        }
    }
}

/// The absolute path, without `.`, `..` and doubled slashes, that a path leads to. The file system
/// is not looked at.
pub fn normalize_to_absolute(path: &str, current_dir: &CurrentDir) -> (r: Result<
    String,
    SymphonyError,
>)
    ensures
        match r {
            Ok(absolute) => current_dir@.absolute(path@) == Ok::<Seq<char>, ErrorView>(absolute@),
            Err(error) => current_dir@.absolute(path@) == Err::<Seq<char>, ErrorView>(error@),
        },
{
    match current_dir {
        CurrentDir::Unknown(error) => if !path_is_absolute(path) {
            return Err(SymphonyError::Io(error.clone()));
        },
        CurrentDir::Known(_) => {},
    }
    Ok(normalize_path(path, current_dir.dir()))
}

/// Make sure that a path does not lead out of a directory.
pub fn validate_workspace_containment(root: &str, path: &str, current_dir: &CurrentDir) -> (r:
    Result<(), SymphonyError>)
    ensures
        match r {
            Ok(()) => current_dir@.containment(root@, path@) == Ok::<(), ErrorView>(()),
            Err(error) => current_dir@.containment(root@, path@) == Err::<(), ErrorView>(error@),
        },
{
    let root_path = match normalize_to_absolute(root, current_dir) {
        Ok(root_path) => root_path,
        Err(error) => {
            return Err(error);
        },
    };
    let full_path = match normalize_to_absolute(path, current_dir) {
        Ok(full_path) => full_path,
        Err(error) => {
            return Err(error);
        },
    };
    if path_is_within(root, path, current_dir.dir()) {
        Ok(())
    } else {
        Err(SymphonyError::WorkspacePathEscape { root: root_path, path: full_path })
    }
}

// ---------------------------------------------------------------------------
// Workspaces
// ---------------------------------------------------------------------------

/// A character that the name of a workspace may hold.
pub open spec fn is_key_char(c: char) -> bool {
    ||| 'a' <= c <= 'z'
    ||| 'A' <= c <= 'Z'
    ||| '0' <= c <= '9'
    ||| c == '.'
    ||| c == '_'
    ||| c == '-'
}

/// The name of a workspace: an identifier with an underscore for each character that the name may
/// not hold.
pub open spec fn workspace_key(identifier: Seq<char>) -> Seq<char> {
    identifier.map_values(
        |c: char|
            if is_key_char(c) {
                c
            } else {
                '_'
            },
    )
}

/// The name of the workspace of an issue.
pub fn sanitize_issue_identifier(identifier: &str) -> (r: String)
    ensures
        r@ == workspace_key(identifier@),
{
    let chars = chars_of(identifier);
    let mut r = String::new();
    for i in 0..chars.len()
        invariant
            chars@ == identifier@,
            r@ == workspace_key(identifier@).take(i as int),
    {
        let c = chars[i];
        let allowed = ('a' <= c && c <= 'z') || ('A' <= c && c <= 'Z') || ('0' <= c && c <= '9')
            || c == '.' || c == '_' || c == '-';
        if allowed {
            r.push(c);
        } else {
            r.push('_');
        }
        proof {
            assert(workspace_key(identifier@).take(i + 1) =~= workspace_key(identifier@).take(
                i as int,
            ).push(workspace_key(identifier@)[i as int]));
        }
    }
    proof {
        assert(workspace_key(identifier@).take(chars@.len() as int) =~= workspace_key(identifier@));
    }
    r
}

/// Where the workspace of an issue is: under its name in the workspace root, and nowhere outside of
/// that.
pub open spec fn workspace_path(
    current_dir: CurrentDirView,
    workspace_root: Seq<char>,
    identifier: Seq<char>,
) -> Result<Seq<char>, ErrorView> {
    match current_dir.absolute(workspace_root) {
        Err(error) => Err(error),
        Ok(root) => {
            let path = path_join(root, workspace_key(identifier));
            match current_dir.absolute(path) {
                Err(error) => Err(error),
                Ok(absolute) => match current_dir.containment(root, absolute) {
                    Err(error) => Err(error),
                    Ok(()) => Ok(absolute),
                },
            }
        },
    }
}

/// Where the hooks of a workspace run: in it, and nowhere outside of the workspace root.
pub open spec fn hook_path(
    current_dir: CurrentDirView,
    workspace_root: Seq<char>,
    workspace_path: Seq<char>,
) -> Result<Seq<char>, ErrorView> {
    match current_dir.absolute(workspace_path) {
        Err(error) => Err(error),
        Ok(path) => match current_dir.absolute(workspace_root) {
            Err(error) => Err(error),
            Ok(root) => match current_dir.containment(root, path) {
                Err(error) => Err(error),
                Ok(()) => Ok(path),
            },
        },
    }
}

/// Where a session runs: in its workspace, and nowhere outside of the workspace root.
pub open spec fn session_path(
    current_dir: CurrentDirView,
    workspace_root: Seq<char>,
    workspace_path: Seq<char>,
) -> Result<Seq<char>, ErrorView> {
    match current_dir.containment(workspace_root, workspace_path) {
        Err(error) => Err(error),
        Ok(()) => current_dir.absolute(workspace_path),
    }
}

/// Where the session log of an issue is.
pub open spec fn log_path(
    current_dir: CurrentDirView,
    workspace_root: Seq<char>,
    key: Seq<char>,
) -> Result<Seq<char>, ErrorView> {
    match current_dir.absolute(workspace_root) {
        Err(error) => Err(error),
        Ok(root) => Ok(path_join(path_join(path_join(root, ".symphony_logs"@), key), "latest.log"@)),
    }
}

/// What stands at a path.
#[derive(Clone, Copy, Debug, PartialEq, Eq)]
pub enum PathKind {
    Directory,
    Other,
    Missing,
}

/// What came of running a hook.
#[derive(Debug, PartialEq)]
pub enum HookRun {
    /// It did not end in time.
    TimedOut,
    /// It could not be run; the text is that of the error.
    NotRun(String),
    /// It ended.
    Exited { success: bool, stderr: Vec<u8> },
}

/// What an error repeats of the output of a hook that failed.
pub open spec fn hook_message(output: Seq<char>) -> Seq<char> {
    if trimmed(output).len() == 0 {
        "hook exited with a non-zero status"@
    } else {
        shortened(trimmed(output), HOOK_OUTPUT_BYTES as int)
    }
}

/// The output that an error repeats can be cut where it has to be.
pub open spec fn has_hook_message(run: HookRun) -> bool {
    match run {
        HookRun::Exited { success, stderr } => success || can_cut(
            trimmed(utf8_lossy(stderr@)),
            HOOK_OUTPUT_BYTES as int,
        ),
        _ => true,
    }
}

/// What a hook has come to.
pub open spec fn hook_result(hook: Seq<char>, run: HookRun, timeout_ms: u64) -> Result<
    (),
    ErrorView,
> {
    match run {
        HookRun::TimedOut => Err(
            ErrorView::HookFailed {
                hook,
                message: "hook timed out after "@ + decimal(timeout_ms as nat) + "ms"@,
            },
        ),
        HookRun::NotRun(error) => Err(ErrorView::Io(error@)),
        HookRun::Exited { success, stderr } => if success {
            Ok(())
        } else {
            Err(ErrorView::HookFailed { hook, message: hook_message(utf8_lossy(stderr@)) })
        },
    }
}

/// What an error repeats of the output of a hook that failed.
pub fn truncate_hook_output(output: &str) -> (r: String)
    requires
        can_cut(trimmed(output@), HOOK_OUTPUT_BYTES as int),
    ensures
        r@ == hook_message(output@),
{
    let cleaned = trim(output);
    if cleaned.is_empty() {
        "hook exited with a non-zero status".to_owned()
    } else {
        shorten(cleaned, HOOK_OUTPUT_BYTES)
    }
}

/// Where the workspace of an issue is.
pub struct WorkspaceLocation {
    pub path: String,
    pub workspace_key: String,
}

/// Workspaces of issues and their hooks.
#[derive(Clone, Copy, Debug, PartialEq, Eq)]
pub struct WorkspaceManager;

impl WorkspaceManager {
    /// The absolute workspace root.
    pub fn workspace_root(&self, config: &EffectiveConfig, current_dir: &CurrentDir) -> (r: Result<
        String,
        SymphonyError,
    >)
        ensures
            match r {
                Ok(root) => current_dir@.absolute(config@.workspace.root) == Ok::<
                    Seq<char>,
                    ErrorView,
                >(root@),
                Err(error) => current_dir@.absolute(config@.workspace.root) == Err::<
                    Seq<char>,
                    ErrorView,
                >(error@),
            },
    {
        normalize_to_absolute(config.workspace.root.as_str(), current_dir)
    }

    /// Where the workspace of an issue is.
    pub fn locate_workspace(
        &self,
        issue_identifier: &str,
        config: &EffectiveConfig,
        current_dir: &CurrentDir,
    ) -> (r: Result<WorkspaceLocation, SymphonyError>)
        ensures
            match r {
                Ok(location) => {
                    &&& workspace_path(current_dir@, config@.workspace.root, issue_identifier@)
                        == Ok::<Seq<char>, ErrorView>(location.path@)
                    &&& location.workspace_key@ == workspace_key(issue_identifier@)
                },
                Err(error) => workspace_path(
                    current_dir@,
                    config@.workspace.root,
                    issue_identifier@,
                ) == Err::<Seq<char>, ErrorView>(error@),
            },
    {
        let root = match self.workspace_root(config, current_dir) {
            Ok(root) => root,
            Err(error) => {
                return Err(error);
            },
        };
        let workspace_key = sanitize_issue_identifier(issue_identifier);
        let joined = join_path(root.as_str(), workspace_key.as_str());
        let path = match normalize_to_absolute(joined.as_str(), current_dir) {
            Ok(path) => path,
            Err(error) => {
                return Err(error);
            },
        };
        match validate_workspace_containment(root.as_str(), path.as_str(), current_dir) {
            Ok(()) => Ok(WorkspaceLocation { path, workspace_key }),
            Err(error) => Err(error),
        }
    }

    /// Whether the workspace is to be created, by what stands at its path.
    pub fn must_create(&self, kind: PathKind, path: &str) -> (r: Result<bool, SymphonyError>)
        ensures
            match r {
                Ok(create) => kind != PathKind::Other && create == (kind == PathKind::Missing),
                Err(error) => kind == PathKind::Other && error@ == ErrorView::InvalidConfig(
                    "workspace path exists and is not a directory: "@ + path@,
                ),
            },
    {
        match kind {
            PathKind::Directory => Ok(false),
            PathKind::Missing => Ok(true),
            PathKind::Other => {
                let mut message = "workspace path exists and is not a directory: ".to_owned();
                message.append(path);
                Err(SymphonyError::InvalidConfig(message))
            },
        }
    }

    /// What is left over from earlier runs and is cleared away: the paths of a workspace's `tmp` and
    /// `.elixir_ls`.
    pub fn ephemeral_artifacts(&self, workspace_path: &str) -> (r: Vec<String>)
        ensures
            r.deep_view() == seq![
                path_join(workspace_path@, "tmp"@),
                path_join(workspace_path@, ".elixir_ls"@),
            ],
    {
        let mut r: Vec<String> = Vec::new();
        r.push(join_path(workspace_path, "tmp"));
        r.push(join_path(workspace_path, ".elixir_ls"));
        proof {
            assert(r.deep_view() =~= seq![
                path_join(workspace_path@, "tmp"@),
                path_join(workspace_path@, ".elixir_ls"@),
            ]);
        }
        r
    }

    /// Where the hooks of a workspace run.
    pub fn hook_directory(
        &self,
        workspace_path: &str,
        config: &EffectiveConfig,
        current_dir: &CurrentDir,
    ) -> (r: Result<String, SymphonyError>)
        ensures
            match r {
                Ok(path) => hook_path(current_dir@, config@.workspace.root, workspace_path@)
                    == Ok::<Seq<char>, ErrorView>(path@),
                Err(error) => hook_path(current_dir@, config@.workspace.root, workspace_path@)
                    == Err::<Seq<char>, ErrorView>(error@),
            },
    {
        let path = match normalize_to_absolute(workspace_path, current_dir) {
            Ok(path) => path,
            Err(error) => {
                return Err(error);
            },
        };
        let root = match self.workspace_root(config, current_dir) {
            Ok(root) => root,
            Err(error) => {
                return Err(error);
            },
        };
        match validate_workspace_containment(root.as_str(), path.as_str(), current_dir) {
            Ok(()) => Ok(path),
            Err(error) => Err(error),
        }
    }

    /// Where a session runs.
    pub fn session_directory(
        &self,
        workspace_path: &str,
        config: &EffectiveConfig,
        current_dir: &CurrentDir,
    ) -> (r: Result<String, SymphonyError>)
        ensures
            match r {
                Ok(path) => session_path(current_dir@, config@.workspace.root, workspace_path@)
                    == Ok::<Seq<char>, ErrorView>(path@),
                Err(error) => session_path(current_dir@, config@.workspace.root, workspace_path@)
                    == Err::<Seq<char>, ErrorView>(error@),
            },
    {
        match validate_workspace_containment(
            config.workspace.root.as_str(),
            workspace_path,
            current_dir,
        ) {
            Ok(()) => normalize_to_absolute(workspace_path, current_dir),
            Err(error) => Err(error),
        }
    }

    /// What a hook has come to.
    pub fn finish_hook(&self, hook_name: &str, run: &HookRun, timeout_ms: u64) -> (r: Result<
        (),
        SymphonyError,
    >)
        requires
            has_hook_message(*run),
        ensures
            match r {
                Ok(()) => hook_result(hook_name@, *run, timeout_ms) == Ok::<(), ErrorView>(()),
                Err(error) => hook_result(hook_name@, *run, timeout_ms) == Err::<(), ErrorView>(
                    error@,
                ),
            },
    {
        match run {
            HookRun::TimedOut => {
                let mut message = "hook timed out after ".to_owned();
                message.append(decimal_text(timeout_ms).as_str());
                message.append("ms");
                Err(SymphonyError::HookFailed { hook: hook_name.to_owned(), message })
            },
            HookRun::NotRun(error) => Err(SymphonyError::Io(error.clone())),
            HookRun::Exited { success, stderr } => if *success {
                Ok(())
            } else {
                let output = from_utf8_lossy(stderr);
                Err(
                    SymphonyError::HookFailed {
                        hook: hook_name.to_owned(),
                        message: truncate_hook_output(output.as_str()),
                    },
                )
            },
        }
    }

    /// What a hook has come to; none where its output would have to be cut within a character.
    pub fn try_finish_hook(&self, hook_name: &str, run: &HookRun, timeout_ms: u64) -> (r: Option<
        Result<(), SymphonyError>,
    >)
        ensures
            match r {
                Some(Ok(())) => has_hook_message(*run) && hook_result(hook_name@, *run, timeout_ms)
                    == Ok::<(), ErrorView>(()),
                Some(Err(error)) => has_hook_message(*run) && hook_result(
                    hook_name@,
                    *run,
                    timeout_ms,
                ) == Err::<(), ErrorView>(error@),
                None => !has_hook_message(*run),
            },
    {
        match run {
            HookRun::Exited { success, stderr } => if !*success {
                let output = from_utf8_lossy(stderr);
                if !is_cuttable(trim(output.as_str()), HOOK_OUTPUT_BYTES) {
                    return None;
                }
            },
            _ => {},
        }
        Some(self.finish_hook(hook_name, run, timeout_ms))
    }

    /// Where the session log of an issue is.
    pub fn session_log_path(
        &self,
        root: &str,
        workspace_key: &str,
        current_dir: &CurrentDir,
    ) -> (r: Result<String, SymphonyError>)
        ensures
            match r {
                Ok(path) => log_path(current_dir@, root@, workspace_key@) == Ok::<
                    Seq<char>,
                    ErrorView,
                >(path@),
                Err(error) => log_path(current_dir@, root@, workspace_key@) == Err::<
                    Seq<char>,
                    ErrorView,
                >(error@),
            },
    {
        match normalize_to_absolute(root, current_dir) {
            Ok(root) => {
                let logs = join_path(root.as_str(), ".symphony_logs");
                let own = join_path(logs.as_str(), workspace_key);
                Ok(join_path(own.as_str(), "latest.log"))
            },
            Err(error) => Err(error),
        }
    }
}

// ---------------------------------------------------------------------------
// Session logs
// ---------------------------------------------------------------------------

/// What a new session log holds.
pub fn session_log_header(at: Timestamp) -> (r: String)
    ensures
        r@ == "session log initialized at "@ + chrono_rfc3339(at) + "\n"@,
{
    let mut r = "session log initialized at ".to_owned();
    r.append(at.to_rfc3339().as_str());
    r.append("\n");
    r
}

/// A session log with one more line.
pub fn extend_session_log(current: String, line: &str) -> (r: String)
    ensures
        r@ == current@ + line@ + "\n"@,
{
    let mut r = current;
    r.append(line);
    r.append("\n");
    r
}

/// What the session log tells of a line that is sent.
pub fn sent_log_line(line: &str) -> (r: String)
    ensures
        r@ == ">> "@ + line@,
{
    let mut r = ">> ".to_owned();
    r.append(line);
    r
}

// ---------------------------------------------------------------------------
// Laws
// ---------------------------------------------------------------------------

/// The name of a workspace holds no slash, so it is one step at most.
pub proof fn lemma_key_is_one_name(identifier: Seq<char>)
    ensures
        workspace_key(identifier).len() == identifier.len(),
        !workspace_key(identifier).contains('/'),
        !is_absolute(workspace_key(identifier)),
        forall|i: int|
            0 <= i < identifier.len() ==> is_key_char(#[trigger] workspace_key(identifier)[i]),
{
    let key = workspace_key(identifier);
    assert forall|i: int| 0 <= i < identifier.len() implies is_key_char(#[trigger] key[i]) by {}
    if key.contains('/') {
        let i = choose|i: int| 0 <= i < key.len() && key[i] == '/';
        assert(is_key_char(key[i]));
    }
    if is_absolute(key) {
        assert(is_key_char(key[0]));
    }
}

/// Naming a workspace after its name gives the same name.
pub proof fn lemma_key_is_stable(identifier: Seq<char>)
    ensures
        workspace_key(workspace_key(identifier)) == workspace_key(identifier),
{
    lemma_key_is_one_name(identifier);
    let key = workspace_key(identifier);
    assert forall|i: int| 0 <= i < key.len() implies workspace_key(key)[i] == key[i] by {
        assert(is_key_char(key[i]));
    }
    assert(workspace_key(key) =~= key);
}

/// A workspace never leaves the workspace root: wherever one is given, its path is absolute and
/// begins with the names of the root, and has at most one name more, that of the workspace.
pub proof fn lemma_workspace_is_contained(
    dir: Seq<char>,
    workspace_root: Seq<char>,
    identifier: Seq<char>,
)
    requires
        is_absolute(dir),
    ensures
        ({
            let root = absolute_parts(dir, workspace_root);
            let key = workspace_key(identifier);
            match workspace_path(CurrentDirView::Known(dir), workspace_root, identifier) {
                Ok(path) => {
                    &&& is_absolute(path)
                    &&& root.is_prefix_of(path_parts(path))
                    &&& path_parts(path) == if is_plain_name(key) && !is_parent_name(key) {
                        root.push(key)
                    } else {
                        root
                    }
                },
                Err(error) => {
                    &&& is_parent_name(key)
                    &&& root.len() > 0
                    &&& error is WorkspacePathEscape
                },
            }
        }),
{
    let key = workspace_key(identifier);
    let root_path = normalized(dir, workspace_root);
    let root = absolute_parts(dir, workspace_root);
    let whole = path_join(root_path, key);
    lemma_key_is_one_name(identifier);
    lemma_normalized(dir, workspace_root);
    lemma_parts_of_join(root_path, key);
    lemma_parts_of_name(key);
    assert(seen_from(dir, root_path) == root_path);
    assert(is_absolute(whole)) by {
        assert(whole[0] == root_path[0]);
    }
    assert(seen_from(dir, whole) == whole);
    let parts = absolute_parts(dir, whole);
    assert(parts == resolved(root + path_parts(key)));
    lemma_parts_are_plain(seen_from(dir, workspace_root));
    lemma_resolved(path_parts(seen_from(dir, workspace_root)));
    lemma_resolved_fixed(root);
    if is_void_name(key) {
        assert(root + Seq::<Seq<char>>::empty() =~= root);
        assert(parts == root);
    } else {
        assert((root + seq![key]).drop_last() =~= root);
        assert((root + seq![key]).last() == key);
        if is_parent_name(key) {
            if root.len() > 0 {
                assert(parts == root.drop_last());
            } else {
                assert(parts == root);
            }
        } else {
            assert(parts == root.push(key));
        }
    }
    lemma_normalized(dir, whole);
    assert(root.is_prefix_of(root.push(key))) by {
        assert(root =~= root.push(key).subrange(0, root.len() as int));
    }
    assert(root.is_prefix_of(root)) by {
        assert(root =~= root.subrange(0, root.len() as int));
    }
}

/// Two issues whose workspaces have different names, neither of them empty nor made of dots alone,
/// never share a workspace.
pub proof fn lemma_workspaces_are_apart(
    dir: Seq<char>,
    workspace_root: Seq<char>,
    one: Seq<char>,
    other: Seq<char>,
)
    requires
        is_absolute(dir),
        workspace_key(one) != workspace_key(other),
        is_plain_name(workspace_key(one)) && !is_parent_name(workspace_key(one)),
        is_plain_name(workspace_key(other)) && !is_parent_name(workspace_key(other)),
    ensures
        ({
            let first = workspace_path(CurrentDirView::Known(dir), workspace_root, one);
            let second = workspace_path(CurrentDirView::Known(dir), workspace_root, other);
            first is Ok && second is Ok && first != second
        }),
{
    lemma_workspace_is_contained(dir, workspace_root, one);
    lemma_workspace_is_contained(dir, workspace_root, other);
    let root = absolute_parts(dir, workspace_root);
    assert(root.push(workspace_key(one)).last() != root.push(workspace_key(other)).last());
}

/// The session log of an issue lies below the workspace root, under the name of the workspace.
pub proof fn lemma_log_is_contained(
    dir: Seq<char>,
    workspace_root: Seq<char>,
    identifier: Seq<char>,
)
    requires
        is_absolute(dir),
    ensures
        ({
            let root = absolute_parts(dir, workspace_root);
            let key = workspace_key(identifier);
            log_path(CurrentDirView::Known(dir), workspace_root, key) matches Ok(path)
                && is_absolute(path) && path_parts(path) == root + seq![".symphony_logs"@]
                + path_parts(key) + seq!["latest.log"@]
        }),
{
    let key = workspace_key(identifier);
    let root_path = normalized(dir, workspace_root);
    let root = absolute_parts(dir, workspace_root);
    reveal_strlit(".symphony_logs");
    reveal_strlit("latest.log");
    lemma_key_is_one_name(identifier);
    lemma_normalized(dir, workspace_root);
    assert(!".symphony_logs"@.contains('/'));
    assert(!"latest.log"@.contains('/'));
    assert(!is_void_name(".symphony_logs"@) && !is_void_name("latest.log"@)) by {
        assert(".symphony_logs"@.len() != seq!['.'].len());
        assert("latest.log"@.len() != seq!['.'].len());
    }
    lemma_parts_of_name(".symphony_logs"@);
    lemma_parts_of_name("latest.log"@);
    let logs = path_join(root_path, ".symphony_logs"@);
    let own = path_join(logs, key);
    lemma_parts_of_join(root_path, ".symphony_logs"@);
    lemma_parts_of_join(logs, key);
    lemma_parts_of_join(own, "latest.log"@);
    assert(logs[0] == root_path[0]);
    assert(own[0] == logs[0]);
    assert(path_join(own, "latest.log"@)[0] == own[0]);
}

} // verus!
