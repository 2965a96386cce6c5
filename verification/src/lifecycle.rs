//! The life of a workspace: how one is prepared for an issue, and how it is removed.
use vstd::prelude::*;

use crate::duplicate::Duplicate;
use crate::error::{ErrorView, SymphonyError};
use crate::path::path_join;
use crate::types::{EffectiveConfig, Workspace, WorkspaceView};
use crate::workspace::{
    sanitize_issue_identifier, workspace_key, workspace_path, CurrentDir, CurrentDirView, PathKind,
    WorkspaceManager,
};

verus! {

/// What came of an action on a workspace.
#[derive(Debug, PartialEq)]
pub enum WorkspaceEvent {
    Succeeded,
    Failed(SymphonyError),
    /// This stands at the path that was looked at.
    Found(PathKind),
}

/// The mathematical value of a [`WorkspaceEvent`].
pub ghost enum WorkspaceEventView {
    Succeeded,
    Failed(ErrorView),
    Found(PathKind),
}

impl View for WorkspaceEvent {
    type V = WorkspaceEventView;

    open spec fn view(&self) -> WorkspaceEventView {
        match *self {
            WorkspaceEvent::Succeeded => WorkspaceEventView::Succeeded,
            WorkspaceEvent::Failed(error) => WorkspaceEventView::Failed(error@),
            WorkspaceEvent::Found(kind) => WorkspaceEventView::Found(kind),
        }
    }
}

/// What is to be done to a workspace.
#[derive(Debug, PartialEq)]
pub enum WorkspaceAction {
    /// Create the directory that holds the workspaces.
    CreateRoot { path: String },
    /// Look what stands at a path.
    Look { path: String },
    /// Create the directory of the workspace.
    Create { path: String },
    /// Remove what stands at these paths, and go on where that fails.
    Clear { paths: Vec<String> },
    /// Run a hook in the workspace.
    RunHook { hook: String, script: String, path: String },
    /// Remove the directory of the workspace.
    Remove { path: String },
    /// Nothing.
    Rest,
}

/// The mathematical value of a [`WorkspaceAction`].
pub ghost enum WorkspaceActionView {
    CreateRoot { path: Seq<char> },
    Look { path: Seq<char> },
    Create { path: Seq<char> },
    Clear { paths: Seq<Seq<char>> },
    RunHook { hook: Seq<char>, script: Seq<char>, path: Seq<char> },
    Remove { path: Seq<char> },
    Rest,
}

impl View for WorkspaceAction {
    type V = WorkspaceActionView;

    open spec fn view(&self) -> WorkspaceActionView {
        match *self {
            WorkspaceAction::CreateRoot { path } => WorkspaceActionView::CreateRoot { path: path@ },
            WorkspaceAction::Look { path } => WorkspaceActionView::Look { path: path@ },
            WorkspaceAction::Create { path } => WorkspaceActionView::Create { path: path@ },
            WorkspaceAction::Clear { paths } => WorkspaceActionView::Clear {
                paths: paths.deep_view(),
            },
            WorkspaceAction::RunHook { hook, script, path } => WorkspaceActionView::RunHook {
                hook: hook@,
                script: script@,
                path: path@,
            },
            WorkspaceAction::Remove { path } => WorkspaceActionView::Remove { path: path@ },
            WorkspaceAction::Rest => WorkspaceActionView::Rest,
        }
    }
}

// ---------------------------------------------------------------------------
// Preparation
// ---------------------------------------------------------------------------

/// How far the preparation of a workspace is.
#[derive(Debug, PartialEq)]
pub enum PreparationStage {
    /// The workspace root is created. The workspace itself may have been refused.
    CreatingRoot { refusal: Option<SymphonyError> },
    Looking,
    Creating,
    /// What earlier runs left over is cleared away.
    Clearing { created_now: bool },
    /// The hook of a new workspace runs.
    Hooking,
    /// The workspace whose hook failed is removed.
    Undoing(SymphonyError),
    Finished(Result<Workspace, SymphonyError>),
}

/// The mathematical value of a [`PreparationStage`].
pub ghost enum PreparationStageView {
    CreatingRoot { refusal: Option<ErrorView> },
    Looking,
    Creating,
    Clearing { created_now: bool },
    Hooking,
    Undoing(ErrorView),
    Finished(Result<WorkspaceView, ErrorView>),
}

impl View for PreparationStage {
    type V = PreparationStageView;

    open spec fn view(&self) -> PreparationStageView {
        match *self {
            PreparationStage::CreatingRoot { refusal } => PreparationStageView::CreatingRoot {
                refusal: match refusal {
                    Some(error) => Some(error@),
                    None => None,
                },
            },
            PreparationStage::Looking => PreparationStageView::Looking,
            PreparationStage::Creating => PreparationStageView::Creating,
            PreparationStage::Clearing { created_now } => PreparationStageView::Clearing {
                created_now,
            },
            PreparationStage::Hooking => PreparationStageView::Hooking,
            PreparationStage::Undoing(error) => PreparationStageView::Undoing(error@),
            PreparationStage::Finished(Ok(workspace)) => PreparationStageView::Finished(
                Ok(workspace@),
            ),
            PreparationStage::Finished(Err(error)) => PreparationStageView::Finished(Err(error@)),
        }
    }
}

/// The preparation of the workspace of an issue.
#[derive(Debug, PartialEq)]
pub struct WorkspacePreparation {
    pub root: String,
    pub path: String,
    pub workspace_key: String,
    /// What is run in the workspace when it is new.
    pub script: Option<String>,
    pub stage: PreparationStage,
}

/// The mathematical value of a [`WorkspacePreparation`].
pub ghost struct PreparationView {
    pub root: Seq<char>,
    pub path: Seq<char>,
    pub workspace_key: Seq<char>,
    pub script: Option<Seq<char>>,
    pub stage: PreparationStageView,
}

impl View for WorkspacePreparation {
    type V = PreparationView;

    open spec fn view(&self) -> PreparationView {
        PreparationView {
            root: self.root@,
            path: self.path@,
            workspace_key: self.workspace_key@,
            script: self.script.deep_view(),
            stage: self.stage@,
        }
    }
}

/// What is wrong with a path at which something else than a directory stands.
pub open spec fn not_a_directory(path: Seq<char>) -> ErrorView {
    ErrorView::InvalidConfig("workspace path exists and is not a directory: "@ + path)
}

impl PreparationView {
    /// The beginning of a preparation.
    pub open spec fn beginning(
        current_dir: CurrentDirView,
        workspace_root: Seq<char>,
        identifier: Seq<char>,
        script: Option<Seq<char>>,
    ) -> PreparationView {
        match (
            current_dir.absolute(workspace_root),
            workspace_path(current_dir, workspace_root, identifier),
        ) {
            (Err(error), _) => PreparationView {
                root: seq![],
                path: seq![],
                workspace_key: workspace_key(identifier),
                script,
                stage: PreparationStageView::Finished(Err(error)),
            },
            (Ok(root), Err(error)) => PreparationView {
                root,
                path: seq![],
                workspace_key: workspace_key(identifier),
                script,
                stage: PreparationStageView::CreatingRoot { refusal: Some(error) },
            },
            (Ok(root), Ok(path)) => PreparationView {
                root,
                path,
                workspace_key: workspace_key(identifier),
                script,
                stage: PreparationStageView::CreatingRoot { refusal: None },
            },
        }
    }

    /// The workspace is ready.
    pub open spec fn ready(self, created_now: bool) -> PreparationStageView {
        PreparationStageView::Finished(
            Ok(WorkspaceView { path: self.path, workspace_key: self.workspace_key, created_now }),
        )
    }

    /// The stage that follows an event. A hook that fails takes the new workspace with it, and its
    /// error stays; that something is not cleared away or removed then changes nothing. An event that
    /// does not belong to the stage changes nothing either.
    pub open spec fn next_stage(self, event: WorkspaceEventView) -> PreparationStageView {
        match (self.stage, event) {
            (
                PreparationStageView::CreatingRoot { refusal: None },
                WorkspaceEventView::Succeeded,
            ) => PreparationStageView::Looking,
            (
                PreparationStageView::CreatingRoot { refusal: Some(error) },
                WorkspaceEventView::Succeeded,
            ) => PreparationStageView::Finished(Err(error)),
            (PreparationStageView::CreatingRoot { .. }, WorkspaceEventView::Failed(error)) =>
                PreparationStageView::Finished(Err(error)),
            (PreparationStageView::Looking, WorkspaceEventView::Found(kind)) => match kind {
                PathKind::Directory => PreparationStageView::Clearing { created_now: false },
                PathKind::Missing => PreparationStageView::Creating,
                PathKind::Other => PreparationStageView::Finished(Err(not_a_directory(self.path))),
            },
            (PreparationStageView::Creating, WorkspaceEventView::Succeeded) =>
                PreparationStageView::Clearing { created_now: true },
            (PreparationStageView::Creating, WorkspaceEventView::Failed(error)) =>
                PreparationStageView::Finished(Err(error)),
            (_, WorkspaceEventView::Found(_)) => self.stage,
            (PreparationStageView::Clearing { created_now }, _) => if created_now && self.script
                is Some {
                PreparationStageView::Hooking
            } else {
                self.ready(created_now)
            },
            (PreparationStageView::Hooking, WorkspaceEventView::Succeeded) => self.ready(true),
            (PreparationStageView::Hooking, WorkspaceEventView::Failed(error)) =>
                PreparationStageView::Undoing(error),
            (PreparationStageView::Undoing(error), _) => PreparationStageView::Finished(Err(error)),
            _ => self.stage,
        }
    }

    /// What is to be done.
    pub open spec fn action(self) -> WorkspaceActionView {
        match self.stage {
            PreparationStageView::CreatingRoot { .. } => WorkspaceActionView::CreateRoot {
                path: self.root,
            },
            PreparationStageView::Looking => WorkspaceActionView::Look { path: self.path },
            PreparationStageView::Creating => WorkspaceActionView::Create { path: self.path },
            PreparationStageView::Clearing { .. } => WorkspaceActionView::Clear {
                paths: seq![path_join(self.path, "tmp"@), path_join(self.path, ".elixir_ls"@)],
            },
            PreparationStageView::Hooking => match self.script {
                Some(script) => WorkspaceActionView::RunHook {
                    hook: "after_create"@,
                    script,
                    path: self.path,
                },
                None => WorkspaceActionView::Rest,
            },
            PreparationStageView::Undoing(_) => WorkspaceActionView::Remove { path: self.path },
            PreparationStageView::Finished(_) => WorkspaceActionView::Rest,
        }
    }
}

impl WorkspacePreparation {
    /// Begin to prepare the workspace of an issue.
    pub fn begin(
        manager: &WorkspaceManager,
        issue_identifier: &str,
        config: &EffectiveConfig,
        current_dir: &CurrentDir,
    ) -> (r: Self)
        ensures
            r@ == PreparationView::beginning(
                current_dir@,
                config@.workspace.root,
                issue_identifier@,
                config@.hooks.after_create,
            ),
    {
        let script = config.hooks.after_create.duplicate();
        let workspace_key = sanitize_issue_identifier(issue_identifier);
        let root = match manager.workspace_root(config, current_dir) {
            Ok(root) => root,
            Err(error) => {
                let r = WorkspacePreparation {
                    root: String::new(),
                    path: String::new(),
                    workspace_key,
                    script,
                    stage: PreparationStage::Finished(Err(error)),
                };
                proof {
                    assert(r.root@ =~= seq![]);
                    assert(r.path@ =~= seq![]);
                }
                return r;
            },
        };
        match manager.locate_workspace(issue_identifier, config, current_dir) {
            Ok(location) => WorkspacePreparation {
                root,
                path: location.path,
                workspace_key,
                script,
                stage: PreparationStage::CreatingRoot { refusal: None },
            },
            Err(error) => {
                let path = String::new();
                proof {
                    assert(path@ =~= seq![]);
                }
                WorkspacePreparation {
                    root,
                    path,
                    workspace_key,
                    script,
                    stage: PreparationStage::CreatingRoot { refusal: Some(error) },
                }
            },
        }
    }

    /// What is to be done.
    pub fn action(&self, manager: &WorkspaceManager) -> (r: WorkspaceAction)
        ensures
            r@ == self@.action(),
    {
        match &self.stage {
            PreparationStage::CreatingRoot { .. } => WorkspaceAction::CreateRoot {
                path: self.root.clone(),
            },
            PreparationStage::Looking => WorkspaceAction::Look { path: self.path.clone() },
            PreparationStage::Creating => WorkspaceAction::Create { path: self.path.clone() },
            PreparationStage::Clearing { .. } => WorkspaceAction::Clear {
                paths: manager.ephemeral_artifacts(self.path.as_str()),
            },
            PreparationStage::Hooking => match &self.script {
                Some(script) => WorkspaceAction::RunHook {
                    hook: "after_create".to_owned(),
                    script: script.clone(),
                    path: self.path.clone(),
                },
                None => WorkspaceAction::Rest,
            },
            PreparationStage::Undoing(_) => WorkspaceAction::Remove { path: self.path.clone() },
            PreparationStage::Finished(_) => WorkspaceAction::Rest,
        }
    }

    fn workspace(&self, created_now: bool) -> (r: Workspace)
        ensures
            r@ == (WorkspaceView {
                path: self@.path,
                workspace_key: self@.workspace_key,
                created_now,
            }),
    {
        Workspace {
            path: self.path.clone(),
            workspace_key: self.workspace_key.clone(),
            created_now,
        }
    }

    /// Go on with what came of the action.
    pub fn advance(self, manager: &WorkspaceManager, event: WorkspaceEvent) -> (r: Self)
        ensures
            r@ == (PreparationView { stage: self@.next_stage(event@), ..self@ }),
    {
        let found = self.workspace(false);
        let created = self.workspace(true);
        let stage = match (self.stage, event) {
            (PreparationStage::CreatingRoot { refusal }, WorkspaceEvent::Succeeded) => match refusal {
                None => PreparationStage::Looking,
                Some(error) => PreparationStage::Finished(Err(error)),
            },
            (PreparationStage::CreatingRoot { .. }, WorkspaceEvent::Failed(error)) =>
                PreparationStage::Finished(Err(error)),
            (PreparationStage::Looking, WorkspaceEvent::Found(kind)) => {
                match manager.must_create(kind, self.path.as_str()) {
                    Ok(true) => PreparationStage::Creating,
                    Ok(false) => PreparationStage::Clearing { created_now: false },
                    Err(error) => PreparationStage::Finished(Err(error)),
                }
            },
            (PreparationStage::Creating, WorkspaceEvent::Succeeded) => PreparationStage::Clearing {
                created_now: true,
            },
            (PreparationStage::Creating, WorkspaceEvent::Failed(error)) =>
                PreparationStage::Finished(Err(error)),
            (stage, WorkspaceEvent::Found(_)) => stage,
            (PreparationStage::Clearing { created_now }, _) => if created_now
                && self.script.is_some() {
                PreparationStage::Hooking
            } else if created_now {
                PreparationStage::Finished(Ok(created))
            } else {
                PreparationStage::Finished(Ok(found))
            },
            (PreparationStage::Hooking, WorkspaceEvent::Succeeded) => PreparationStage::Finished(
                Ok(created),
            ),
            (PreparationStage::Hooking, WorkspaceEvent::Failed(error)) => PreparationStage::Undoing(
                error,
            ),
            (PreparationStage::Undoing(error), _) => PreparationStage::Finished(Err(error)),
            (stage, _) => stage,
        };
        WorkspacePreparation {
            root: self.root,
            path: self.path,
            workspace_key: self.workspace_key,
            script: self.script,
            stage,
        }
    }
}

// ---------------------------------------------------------------------------
// Removal
// ---------------------------------------------------------------------------

/// How far the removal of a workspace is.
#[derive(Debug, PartialEq)]
pub enum RemovalStage {
    Looking,
    /// The hook of a workspace that is to be removed runs.
    Hooking,
    Removing,
    Finished(Result<(), SymphonyError>),
}

/// The mathematical value of a [`RemovalStage`].
pub ghost enum RemovalStageView {
    Looking,
    Hooking,
    Removing,
    Finished(Result<(), ErrorView>),
}

impl View for RemovalStage {
    type V = RemovalStageView;

    open spec fn view(&self) -> RemovalStageView {
        match *self {
            RemovalStage::Looking => RemovalStageView::Looking,
            RemovalStage::Hooking => RemovalStageView::Hooking,
            RemovalStage::Removing => RemovalStageView::Removing,
            RemovalStage::Finished(Ok(())) => RemovalStageView::Finished(Ok(())),
            RemovalStage::Finished(Err(error)) => RemovalStageView::Finished(Err(error@)),
        }
    }
}

/// The removal of the workspace of an issue.
#[derive(Debug, PartialEq)]
pub struct WorkspaceRemoval {
    pub path: String,
    /// What is run in the workspace before it is removed.
    pub script: Option<String>,
    pub stage: RemovalStage,
}

/// The mathematical value of a [`WorkspaceRemoval`].
pub ghost struct RemovalView {
    pub path: Seq<char>,
    pub script: Option<Seq<char>>,
    pub stage: RemovalStageView,
}

impl View for WorkspaceRemoval {
    type V = RemovalView;

    open spec fn view(&self) -> RemovalView {
        RemovalView { path: self.path@, script: self.script.deep_view(), stage: self.stage@ }
    }
}

impl RemovalView {
    /// The beginning of a removal.
    pub open spec fn beginning(
        current_dir: CurrentDirView,
        workspace_root: Seq<char>,
        identifier: Seq<char>,
        script: Option<Seq<char>>,
    ) -> RemovalView {
        match workspace_path(current_dir, workspace_root, identifier) {
            Ok(path) => RemovalView { path, script, stage: RemovalStageView::Looking },
            Err(error) => RemovalView {
                path: seq![],
                script,
                stage: RemovalStageView::Finished(Err(error)),
            },
        }
    }

    /// The stage that follows an event. Where nothing stands, nothing is run; that the hook fails
    /// changes nothing, nor does an event that does not belong to the stage.
    pub open spec fn next_stage(self, event: WorkspaceEventView) -> RemovalStageView {
        match (self.stage, event) {
            (RemovalStageView::Looking, WorkspaceEventView::Found(kind)) => if kind
                == PathKind::Missing {
                RemovalStageView::Finished(Ok(()))
            } else if self.script is Some {
                RemovalStageView::Hooking
            } else {
                RemovalStageView::Removing
            },
            (_, WorkspaceEventView::Found(_)) => self.stage,
            (RemovalStageView::Hooking, _) => RemovalStageView::Removing,
            (RemovalStageView::Removing, WorkspaceEventView::Succeeded) =>
                RemovalStageView::Finished(Ok(())),
            (RemovalStageView::Removing, WorkspaceEventView::Failed(error)) =>
                RemovalStageView::Finished(Err(error)),
            _ => self.stage,
        }
    }

    /// What is to be done.
    pub open spec fn action(self) -> WorkspaceActionView {
        match self.stage {
            RemovalStageView::Looking => WorkspaceActionView::Look { path: self.path },
            RemovalStageView::Hooking => match self.script {
                Some(script) => WorkspaceActionView::RunHook {
                    hook: "before_remove"@,
                    script,
                    path: self.path,
                },
                None => WorkspaceActionView::Rest,
            },
            RemovalStageView::Removing => WorkspaceActionView::Remove { path: self.path },
            RemovalStageView::Finished(_) => WorkspaceActionView::Rest,
        }
    }
}

impl WorkspaceRemoval {
    /// Begin to remove the workspace of an issue.
    pub fn begin(
        manager: &WorkspaceManager,
        issue_identifier: &str,
        config: &EffectiveConfig,
        current_dir: &CurrentDir,
    ) -> (r: Self)
        ensures
            r@ == RemovalView::beginning(
                current_dir@,
                config@.workspace.root,
                issue_identifier@,
                config@.hooks.before_remove,
            ),
    {
        let script = config.hooks.before_remove.duplicate();
        match manager.locate_workspace(issue_identifier, config, current_dir) {
            Ok(location) => WorkspaceRemoval {
                path: location.path,
                script,
                stage: RemovalStage::Looking,
            },
            Err(error) => {
                let path = String::new();
                proof {
                    assert(path@ =~= seq![]);
                }
                WorkspaceRemoval { path, script, stage: RemovalStage::Finished(Err(error)) }
            },
        }
    }

    /// What is to be done.
    pub fn action(&self) -> (r: WorkspaceAction)
        ensures
            r@ == self@.action(),
    {
        match &self.stage {
            RemovalStage::Looking => WorkspaceAction::Look { path: self.path.clone() },
            RemovalStage::Hooking => match &self.script {
                Some(script) => WorkspaceAction::RunHook {
                    hook: "before_remove".to_owned(),
                    script: script.clone(),
                    path: self.path.clone(),
                },
                None => WorkspaceAction::Rest,
            },
            RemovalStage::Removing => WorkspaceAction::Remove { path: self.path.clone() },
            RemovalStage::Finished(_) => WorkspaceAction::Rest,
        }
    }

    /// Go on with what came of the action.
    pub fn advance(self, event: WorkspaceEvent) -> (r: Self)
        ensures
            r@ == (RemovalView { stage: self@.next_stage(event@), ..self@ }),
    {
        let stage = match (self.stage, event) {
            (RemovalStage::Looking, WorkspaceEvent::Found(kind)) => match kind {
                PathKind::Missing => RemovalStage::Finished(Ok(())),
                _ => if self.script.is_some() {
                    RemovalStage::Hooking
                } else {
                    RemovalStage::Removing
                },
            },
            (stage, WorkspaceEvent::Found(_)) => stage,
            (RemovalStage::Hooking, _) => RemovalStage::Removing,
            (RemovalStage::Removing, WorkspaceEvent::Succeeded) => RemovalStage::Finished(Ok(())),
            (RemovalStage::Removing, WorkspaceEvent::Failed(error)) => RemovalStage::Finished(
                Err(error),
            ),
            (stage, _) => stage,
        };
        WorkspaceRemoval { path: self.path, script: self.script, stage }
    }
}

// ---------------------------------------------------------------------------
// Laws
// ---------------------------------------------------------------------------

/// What a preparation has come to when some events have followed it: how far it is, whether the
/// workspace stands then, and how often it was created and its hook was run.
pub ghost struct Prepared {
    pub preparation: PreparationView,
    pub stands: bool,
    pub creations: nat,
    pub hooks: nat,
}

/// What is found at the path of a workspace is a directory where it stands, and nothing where it does
/// not; what is found is said where it is looked for, and nowhere else.
pub open spec fn is_true_event(at: Prepared, event: WorkspaceEventView) -> bool {
    match event {
        WorkspaceEventView::Found(kind) => at.preparation.action() is Look && kind == (if at.stands {
            PathKind::Directory
        } else {
            PathKind::Missing
        }),
        _ => !(at.preparation.action() is Look),
    }
}

/// What a preparation has come to when one more event follows.
pub open spec fn prepared_behind(at: Prepared, event: WorkspaceEventView) -> Prepared {
    let action = at.preparation.action();
    let done = event is Succeeded;
    Prepared {
        preparation: PreparationView {
            stage: at.preparation.next_stage(event),
            ..at.preparation
        },
        stands: if action is Create && done {
            true
        } else if action is Remove && done {
            false
        } else {
            at.stands
        },
        creations: at.creations + if action is Create && done {
            1nat
        } else {
            0
        },
        hooks: at.hooks + if action is RunHook {
            1nat
        } else {
            0
        },
    }
}

/// What a preparation has come to when true events follow.
pub open spec fn prepared(at: Prepared, events: Seq<WorkspaceEventView>) -> Prepared
    decreases events.len(),
{
    if events.len() == 0 {
        at
    } else {
        prepared_behind(prepared(at, events.drop_last()), events.last())
    }
}

/// Each of the events is true when it comes.
pub open spec fn are_true_events(at: Prepared, events: Seq<WorkspaceEventView>) -> bool
    decreases events.len(),
{
    events.len() > 0 ==> are_true_events(at, events.drop_last()) && is_true_event(
        prepared(at, events.drop_last()),
        events.last(),
    )
}

/// A preparation that has just begun, of a workspace that stands or does not.
pub open spec fn just_begun(preparation: PreparationView, stands: bool) -> Prepared {
    Prepared { preparation, stands, creations: 0, hooks: 0 }
}

/// What holds of a preparation at each stage, where the workspace stood at its beginning or did not.
spec fn is_on_course(at: Prepared, begun: PreparationView, stood: bool) -> bool {
    &&& at.preparation == (PreparationView { stage: at.preparation.stage, ..begun })
    &&& match at.preparation.stage {
        PreparationStageView::CreatingRoot { .. } | PreparationStageView::Looking => at.stands
            == stood && at.creations == 0 && at.hooks == 0,
        PreparationStageView::Creating => !at.stands && !stood && at.creations == 0 && at.hooks
            == 0,
        PreparationStageView::Clearing { created_now } => at.stands && created_now == !stood
            && at.creations == (if stood {
            0nat
        } else {
            1
        }) && at.hooks == 0,
        PreparationStageView::Hooking => at.stands && !stood && at.creations == 1 && at.hooks == 0
            && begun.script is Some,
        PreparationStageView::Undoing(_) => !stood,
        PreparationStageView::Finished(Ok(workspace)) => {
            &&& at.stands
            &&& workspace == (WorkspaceView {
                path: begun.path,
                workspace_key: begun.workspace_key,
                created_now: !stood,
            })
            &&& at.creations == (if stood {
                0nat
            } else {
                1
            })
            &&& at.hooks == (if !stood && begun.script is Some {
                1nat
            } else {
                0
            })
        },
        PreparationStageView::Finished(Err(_)) => true,
    }
}

proof fn lemma_stays_on_course(
    begun: PreparationView,
    stood: bool,
    events: Seq<WorkspaceEventView>,
)
    requires
        begun.stage is CreatingRoot,
        are_true_events(just_begun(begun, stood), events),
    ensures
        is_on_course(prepared(just_begun(begun, stood), events), begun, stood),
    decreases events.len(),
{
    if events.len() > 0 {
        lemma_stays_on_course(begun, stood, events.drop_last());
    }
}

/// Whatever happens, a preparation that ends well leaves a workspace that stands at the path and under
/// the key of the issue. It has created it, and run its hook once where there is one, where it did
/// not stand before; where it did, it has done neither.
pub proof fn lemma_preparation_creates_at_most_once(
    current_dir: CurrentDirView,
    workspace_root: Seq<char>,
    identifier: Seq<char>,
    script: Option<Seq<char>>,
    stood: bool,
    events: Seq<WorkspaceEventView>,
    workspace: WorkspaceView,
)
    requires
        ({
            let begun = PreparationView::beginning(current_dir, workspace_root, identifier, script);
            &&& are_true_events(just_begun(begun, stood), events)
            &&& prepared(just_begun(begun, stood), events).preparation.stage
                == PreparationStageView::Finished(Ok(workspace))
        }),
    ensures
        ({
            let begun = PreparationView::beginning(current_dir, workspace_root, identifier, script);
            let end = prepared(just_begun(begun, stood), events);
            &&& end.stands
            &&& workspace_path(current_dir, workspace_root, identifier) == Ok::<
                Seq<char>,
                ErrorView,
            >(workspace.path)
            &&& workspace.workspace_key == workspace_key(identifier)
            &&& workspace.created_now == !stood
            &&& end.creations == (if stood {
                0nat
            } else {
                1
            })
            &&& end.hooks == (if !stood && script is Some {
                1nat
            } else {
                0
            })
        }),
{
    let begun = PreparationView::beginning(current_dir, workspace_root, identifier, script);
    if begun.stage is CreatingRoot {
        lemma_stays_on_course(begun, stood, events);
        if workspace_path(current_dir, workspace_root, identifier) is Err {
            lemma_refused_is_not_prepared(begun, stood, events);
        }
    } else {
        lemma_finished_stays(begun, stood, events);
    }
}

proof fn lemma_finished_stays(begun: PreparationView, stood: bool, events: Seq<WorkspaceEventView>)
    requires
        begun.stage is Finished,
    ensures
        prepared(just_begun(begun, stood), events).preparation.stage == begun.stage,
    decreases events.len(),
{
    if events.len() > 0 {
        lemma_finished_stays(begun, stood, events.drop_last());
    }
}

proof fn lemma_refused_is_not_prepared(
    begun: PreparationView,
    stood: bool,
    events: Seq<WorkspaceEventView>,
)
    requires
        begun.stage matches PreparationStageView::CreatingRoot { refusal } && refusal is Some,
    ensures
        ({
            let stage = prepared(just_begun(begun, stood), events).preparation.stage;
            stage == begun.stage || stage matches PreparationStageView::Finished(Err(_))
        }),
    decreases events.len(),
{
    if events.len() > 0 {
        lemma_refused_is_not_prepared(begun, stood, events.drop_last());
    }
}

/// Of two preparations for one issue that end well, one behind the other, where the workspace does not
/// stand at first, only the first creates it and runs its hook, and both give the same path and key.
pub proof fn lemma_only_the_first_preparation_creates(
    current_dir: CurrentDirView,
    workspace_root: Seq<char>,
    identifier: Seq<char>,
    script: Option<Seq<char>>,
    first_events: Seq<WorkspaceEventView>,
    first: WorkspaceView,
    second_events: Seq<WorkspaceEventView>,
    second: WorkspaceView,
)
    requires
        ({
            let begun = PreparationView::beginning(current_dir, workspace_root, identifier, script);
            let end = prepared(just_begun(begun, false), first_events);
            &&& are_true_events(just_begun(begun, false), first_events)
            &&& end.preparation.stage == PreparationStageView::Finished(Ok(first))
            &&& are_true_events(just_begun(begun, end.stands), second_events)
            &&& prepared(just_begun(begun, end.stands), second_events).preparation.stage
                == PreparationStageView::Finished(Ok(second))
        }),
    ensures
        ({
            let begun = PreparationView::beginning(current_dir, workspace_root, identifier, script);
            let end = prepared(just_begun(begun, false), first_events);
            let last = prepared(just_begun(begun, end.stands), second_events);
            &&& first.created_now && !second.created_now
            &&& second.path == first.path
            &&& second.workspace_key == first.workspace_key
            &&& first.workspace_key == workspace_key(identifier)
            &&& end.hooks == (if script is Some {
                1nat
            } else {
                0
            })
            &&& last.creations == 0 && last.hooks == 0
        }),
{
    let begun = PreparationView::beginning(current_dir, workspace_root, identifier, script);
    let end = prepared(just_begun(begun, false), first_events);
    lemma_preparation_creates_at_most_once(
        current_dir,
        workspace_root,
        identifier,
        script,
        false,
        first_events,
        first,
    );
    lemma_preparation_creates_at_most_once(
        current_dir,
        workspace_root,
        identifier,
        script,
        end.stands,
        second_events,
        second,
    );
}

/// A hook that fails in a new workspace takes the workspace with it, and the error that comes out is
/// that of the hook, whether or not the workspace could be removed.
pub proof fn lemma_failed_hook_undoes_creation(
    preparation: PreparationView,
    error: ErrorView,
    removal: WorkspaceEventView,
)
    requires
        preparation.stage is Hooking,
        !(removal is Found),
    ensures
        ({
            let undoing = PreparationView {
                stage: preparation.next_stage(WorkspaceEventView::Failed(error)),
                ..preparation
            };
            &&& undoing.action() == (WorkspaceActionView::Remove { path: preparation.path })
            &&& undoing.next_stage(removal) == PreparationStageView::Finished(Err(error))
        }),
{
}

/// A removal runs nothing where nothing stands, and removes the workspace whether or not its hook
/// fails.
pub proof fn lemma_removal_ignores_its_hook(
    removal: RemovalView,
    error: ErrorView,
)
    ensures
        removal.stage is Looking ==> removal.next_stage(
            WorkspaceEventView::Found(PathKind::Missing),
        ) == RemovalStageView::Finished(Ok(())),
        removal.stage is Hooking ==> removal.next_stage(WorkspaceEventView::Failed(error))
            == removal.next_stage(WorkspaceEventView::Succeeded) && removal.next_stage(
            WorkspaceEventView::Succeeded,
        ) == RemovalStageView::Removing,
{
}

} // verus!
