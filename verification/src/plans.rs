//! Deciding where a save goes and where a new request is added, before any file is touched.
use vstd::prelude::*;

use crate::domain::{best_root_index, ProjectConfiguration};
use crate::model::{default_draft, DraftView, RequestDraft, RequestId, RequestIdView};
use crate::pathing::{save_path_spec, SaveFilePath, SavePathError, SavePathErrorView};
use crate::text::{push_str, str_eq};
use crate::workspace::{file_paths, find_file, WorkspaceState, WorkspaceView};

verus! {

// ---------------------------------------------------------------------------
// Saving the current draft
// ---------------------------------------------------------------------------

/// Where a save writes: over the selected request, or to a new file.
#[derive(Debug)]
pub enum SaveTarget {
    ExistingSelection(RequestId),
    ExplicitPath(String),
}

pub ghost enum SaveTargetView {
    ExistingSelection(RequestIdView),
    ExplicitPath(Seq<char>),
}

impl View for SaveTarget {
    type V = SaveTargetView;

    open spec fn view(&self) -> SaveTargetView {
        match self {
            SaveTarget::ExistingSelection(id) => SaveTargetView::ExistingSelection(id@),
            SaveTarget::ExplicitPath(p) => SaveTargetView::ExplicitPath(p@),
        }
    }
}

#[derive(Debug)]
pub struct SavePlan {
    pub root: String,
    pub target: SaveTarget,
    pub draft: RequestDraft,
}

pub ghost struct SavePlanView {
    pub root: Seq<char>,
    pub target: SaveTargetView,
    pub draft: DraftView,
}

impl View for SavePlan {
    type V = SavePlanView;

    open spec fn view(&self) -> SavePlanView {
        SavePlanView { root: self.root@, target: self.target@, draft: self.draft@ }
    }
}

impl SavePlan {
    /// The arguments of a save: the project root, the selected request or the explicit
    /// path (never both), and the draft.
    pub fn into_persist_args(self) -> (r: (String, Option<RequestId>, RequestDraft, Option<String>))
        ensures
            r.0@ == self.root@,
            r.2@ == self.draft@,
            match self.target@ {
                SaveTargetView::ExistingSelection(id) => (r.1 matches Some(x) && x@ == id) && r.3 is None,
                SaveTargetView::ExplicitPath(p) => r.1 is None && (r.3 matches Some(x) && x@ == p),
            },
    {
        match self.target {
            SaveTarget::ExistingSelection(id) => (self.root, Some(id), self.draft, None),
            SaveTarget::ExplicitPath(path) => (self.root, None, self.draft, Some(path)),
        }
    }
}

#[derive(Debug)]
pub enum SavePlanError {
    InvalidPath(SavePathError),
    MissingProjectRoot,
    SelectedRequestOutsideConfiguredProjects(String),
}

pub ghost enum SavePlanErrorView {
    InvalidPath(SavePathErrorView),
    MissingProjectRoot,
    SelectedRequestOutsideConfiguredProjects(Seq<char>),
}

impl View for SavePlanError {
    type V = SavePlanErrorView;

    open spec fn view(&self) -> SavePlanErrorView {
        match self {
            SavePlanError::InvalidPath(e) => SavePlanErrorView::InvalidPath(e@),
            SavePlanError::MissingProjectRoot => SavePlanErrorView::MissingProjectRoot,
            SavePlanError::SelectedRequestOutsideConfiguredProjects(p) => SavePlanErrorView::SelectedRequestOutsideConfiguredProjects(p@),
        }
    }
}

impl PartialEq for SavePlanError {
    fn eq(&self, other: &Self) -> (r: bool) {
        match (self, other) {
            (SavePlanError::InvalidPath(a), SavePlanError::InvalidPath(b)) => a == b,
            (SavePlanError::MissingProjectRoot, SavePlanError::MissingProjectRoot) => true,
            (
                SavePlanError::SelectedRequestOutsideConfiguredProjects(a),
                SavePlanError::SelectedRequestOutsideConfiguredProjects(b),
            ) => str_eq(a.as_str(), b.as_str()),
            _ => false,
        }
    }
}

impl Eq for SavePlanError {

}

impl vstd::std_specs::cmp::PartialEqSpecImpl for SavePlanError {
    open spec fn obeys_eq_spec() -> bool {
        true
    }

    open spec fn eq_spec(&self, other: &SavePlanError) -> bool {
        self@ == other@
    }
}

/// The message shown for an error of a save plan.
pub open spec fn save_plan_error_message(e: SavePlanErrorView) -> Seq<char> {
    match e {
        SavePlanErrorView::InvalidPath(e) => crate::pathing::save_path_error_message(e),
        SavePlanErrorView::MissingProjectRoot => "No project configured. Add a project folder first."@,
        SavePlanErrorView::SelectedRequestOutsideConfiguredProjects(p) => "Cannot save: selected request is outside configured projects: "@ + p,
    }
}

impl SavePlanError {
    /// The message shown for the error.
    pub fn message(&self) -> (m: String)
        ensures
            m@ == save_plan_error_message(self@),
    {
        match self {
            SavePlanError::InvalidPath(e) => e.message(),
            SavePlanError::MissingProjectRoot => String::from_str("No project configured. Add a project folder first."),
            SavePlanError::SelectedRequestOutsideConfiguredProjects(p) => {
                let mut m = String::from_str("Cannot save: selected request is outside configured projects: ");
                push_str(&mut m, p.as_str());
                m
            },
        }
    }
}

/// Where saving `draft` goes: over a selected request of an `.http` file, into the project
/// folder that holds that file; otherwise to the path typed in the save field, taken from
/// the first project folder.
pub open spec fn save_plan_spec(
    w: WorkspaceView,
    c: crate::domain::ConfigView,
    draft: DraftView,
    save_path: Seq<char>,
) -> Result<SavePlanView, SavePlanErrorView> {
    let projects = c.projects;
    match w.selection {
        Some(RequestIdView::HttpFile { path, index }) => match best_root_index(projects, path) {
            Some(i) => Ok(SavePlanView {
                root: projects[i],
                target: SaveTargetView::ExistingSelection(RequestIdView::HttpFile { path, index }),
                draft,
            }),
            None => Err(SavePlanErrorView::SelectedRequestOutsideConfiguredProjects(path)),
        },
        _ => if !c.configured {
            Err(SavePlanErrorView::MissingProjectRoot)
        } else {
            match save_path_spec(save_path, Some(projects[0])) {
                Ok(p) => Ok(SavePlanView { root: projects[0], target: SaveTargetView::ExplicitPath(p), draft }),
                Err(e) => Err(SavePlanErrorView::InvalidPath(e)),
            }
        },
    }
}

pub open spec fn save_plan_result_view(r: Result<SavePlan, SavePlanError>) -> Result<SavePlanView, SavePlanErrorView> {
    match r {
        Ok(p) => Ok(p@),
        Err(e) => Err(e@),
    }
}

/// Decides where saving the current draft goes.
pub fn build_save_plan(
    workspace: &WorkspaceState,
    configuration: &ProjectConfiguration,
    draft: &RequestDraft,
    save_path: &str,
) -> (r: Result<SavePlan, SavePlanError>)
    ensures
        save_plan_result_view(r) == save_plan_spec(workspace@, configuration@, draft@, save_path@),
{
    let draft = draft.clone();
    match workspace.selection_cloned() {
        Some(RequestId::HttpFile { path, index }) => match configuration.project_root_for_path(path.as_str()) {
            Some(root) => Ok(
                SavePlan {
                    root: root.to_path_buf(),
                    target: SaveTarget::ExistingSelection(RequestId::HttpFile { path, index }),
                    draft,
                },
            ),
            None => Err(SavePlanError::SelectedRequestOutsideConfiguredProjects(path)),
        },
        _ => match configuration.default_project_root() {
            None => Err(SavePlanError::MissingProjectRoot),
            Some(default_root) => match SaveFilePath::parse_user_input(save_path, Some(default_root)) {
                Ok(explicit_path) => Ok(
                    SavePlan {
                        root: default_root.to_path_buf(),
                        target: SaveTarget::ExplicitPath(explicit_path.to_path_buf()),
                        draft,
                    },
                ),
                Err(e) => Err(SavePlanError::InvalidPath(e)),
            },
        },
    }
}

// ---------------------------------------------------------------------------
// Adding a request to the selected file
// ---------------------------------------------------------------------------

#[derive(Debug)]
pub struct AddRequestPlan {
    pub file_path: String,
    pub project_root: String,
    pub new_draft: RequestDraft,
}

pub ghost struct AddRequestPlanView {
    pub file_path: Seq<char>,
    pub project_root: Seq<char>,
    pub new_draft: DraftView,
}

impl View for AddRequestPlan {
    type V = AddRequestPlanView;

    open spec fn view(&self) -> AddRequestPlanView {
        AddRequestPlanView {
            file_path: self.file_path@,
            project_root: self.project_root@,
            new_draft: self.new_draft@,
        }
    }
}

#[derive(Debug)]
pub enum AddRequestPlanError {
    NoSelectedFile,
    SelectedFileNotLoaded(String),
    SelectedFileOutsideConfiguredProjects(String),
}

pub ghost enum AddRequestPlanErrorView {
    NoSelectedFile,
    SelectedFileNotLoaded(Seq<char>),
    SelectedFileOutsideConfiguredProjects(Seq<char>),
}

impl View for AddRequestPlanError {
    type V = AddRequestPlanErrorView;

    open spec fn view(&self) -> AddRequestPlanErrorView {
        match self {
            AddRequestPlanError::NoSelectedFile => AddRequestPlanErrorView::NoSelectedFile,
            AddRequestPlanError::SelectedFileNotLoaded(p) => AddRequestPlanErrorView::SelectedFileNotLoaded(p@),
            AddRequestPlanError::SelectedFileOutsideConfiguredProjects(p) => AddRequestPlanErrorView::SelectedFileOutsideConfiguredProjects(p@),
        }
    }
}

impl PartialEq for AddRequestPlanError {
    fn eq(&self, other: &Self) -> (r: bool) {
        match (self, other) {
            (AddRequestPlanError::NoSelectedFile, AddRequestPlanError::NoSelectedFile) => true,
            (AddRequestPlanError::SelectedFileNotLoaded(a), AddRequestPlanError::SelectedFileNotLoaded(b)) => str_eq(
                a.as_str(),
                b.as_str(),
            ),
            (
                AddRequestPlanError::SelectedFileOutsideConfiguredProjects(a),
                AddRequestPlanError::SelectedFileOutsideConfiguredProjects(b),
            ) => str_eq(a.as_str(), b.as_str()),
            _ => false,
        }
    }
}

impl Eq for AddRequestPlanError {

}

impl vstd::std_specs::cmp::PartialEqSpecImpl for AddRequestPlanError {
    open spec fn obeys_eq_spec() -> bool {
        true
    }

    open spec fn eq_spec(&self, other: &AddRequestPlanError) -> bool {
        self@ == other@
    }
}

/// The message shown for an error of an add-request plan.
pub open spec fn add_plan_error_message(e: AddRequestPlanErrorView) -> Seq<char> {
    match e {
        AddRequestPlanErrorView::NoSelectedFile => "Select a file to add a request"@,
        AddRequestPlanErrorView::SelectedFileNotLoaded(p) => "Cannot add request: selected file is not loaded: "@ + p,
        AddRequestPlanErrorView::SelectedFileOutsideConfiguredProjects(p) => "Cannot resolve project for selected file: "@ + p,
    }
}

impl AddRequestPlanError {
    /// The message shown for the error.
    pub fn message(&self) -> (m: String)
        ensures
            m@ == add_plan_error_message(self@),
    {
        match self {
            AddRequestPlanError::NoSelectedFile => String::from_str("Select a file to add a request"),
            AddRequestPlanError::SelectedFileNotLoaded(p) => {
                let mut m = String::from_str("Cannot add request: selected file is not loaded: ");
                push_str(&mut m, p.as_str());
                m
            },
            AddRequestPlanError::SelectedFileOutsideConfiguredProjects(p) => {
                let mut m = String::from_str("Cannot resolve project for selected file: ");
                push_str(&mut m, p.as_str());
                m
            },
        }
    }
}

/// Where a new request goes: appended to the selected `.http` file, which must be loaded
/// and lie in a configured project folder.
pub open spec fn add_request_plan_spec(w: WorkspaceView, projects: Seq<Seq<char>>) -> Result<AddRequestPlanView, AddRequestPlanErrorView> {
    match w.selection {
        Some(RequestIdView::HttpFile { path, .. }) => if !w.configured {
            Err(AddRequestPlanErrorView::NoSelectedFile)
        } else if !file_paths(w.files).contains(path) {
            Err(AddRequestPlanErrorView::SelectedFileNotLoaded(path))
        } else {
            match best_root_index(projects, path) {
                Some(i) => Ok(AddRequestPlanView {
                    file_path: path,
                    project_root: projects[i],
                    new_draft: DraftView { title: "New request"@, ..default_draft() },
                }),
                None => Err(AddRequestPlanErrorView::SelectedFileOutsideConfiguredProjects(path)),
            }
        },
        _ => Err(AddRequestPlanErrorView::NoSelectedFile),
    }
}

pub open spec fn add_plan_result_view(r: Result<AddRequestPlan, AddRequestPlanError>) -> Result<AddRequestPlanView, AddRequestPlanErrorView> {
    match r {
        Ok(p) => Ok(p@),
        Err(e) => Err(e@),
    }
}

/// Decides where a new request is added.
pub fn build_add_request_plan(workspace: &WorkspaceState, configuration: &ProjectConfiguration) -> (r: Result<AddRequestPlan, AddRequestPlanError>)
    ensures
        add_plan_result_view(r) == add_request_plan_spec(workspace@, configuration@.projects),
{
    let path = match workspace.selection_cloned() {
        Some(RequestId::HttpFile { path, .. }) => path,
        _ => {
            return Err(AddRequestPlanError::NoSelectedFile);
        },
    };
    let files = match workspace.configured() {
        Some(w) => w.http_files.as_slice(),
        None => {
            return Err(AddRequestPlanError::NoSelectedFile);
        },
    };
    match find_file(files, path.as_str()) {
        None => {
            return Err(AddRequestPlanError::SelectedFileNotLoaded(path));
        },
        Some(i) => {
            assert(file_paths(workspace@.files)[i as int] == path@);
        },
    }
    match configuration.project_root_for_path(path.as_str()) {
        Some(project_root) => {
            let new_draft = RequestDraft::titled(String::from_str("New request"));
            Ok(AddRequestPlan { file_path: path, project_root: project_root.to_path_buf(), new_draft })
        },
        None => Err(AddRequestPlanError::SelectedFileOutsideConfiguredProjects(path)),
    }
}

} // verus!
