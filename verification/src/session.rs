//! The pieces of a working session that sit between the editor and the workspace: which
//! environment is active, what is marked in edit mode, and the status shown at start-up.
use vstd::prelude::*;

use crate::domain::{global_views, project_views, ProjectConfiguration};
use crate::env::{env_views, Environment, EnvironmentView};
use crate::model::{RequestId, RequestIdView};
use crate::pathing::{check_folder, opt_view, DirectoryRoot, GlobalEnvRoot, PathProbe, ProjectRoot, RootPathErrorView};
use crate::state::AppState;
use crate::status::string_views;
use crate::text::{decimal, decimal_string, push_chars, push_str, str_eq};

verus! {

// ---------------------------------------------------------------------------
// The active environment
// ---------------------------------------------------------------------------

/// A position among the environments, checked when it was made.
#[derive(Debug, Clone, Copy, PartialEq, Eq, Structural)]
pub struct EnvironmentIndex(usize);

impl View for EnvironmentIndex {
    type V = usize;

    closed spec fn view(&self) -> usize {
        self.0
    }
}

/// Index of the first environment named `name`, or -1.
pub open spec fn env_index_of(envs: Seq<EnvironmentView>, name: Seq<char>) -> int
    decreases envs.len(),
{
    if envs.len() == 0 {
        -1
    } else {
        let r = env_index_of(envs.drop_last(), name);
        if r >= 0 {
            r
        } else if envs.last().name == name {
            envs.len() - 1
        } else {
            -1
        }
    }
}

pub proof fn lemma_env_index_of(envs: Seq<EnvironmentView>, name: Seq<char>)
    ensures
        -1 <= env_index_of(envs, name) < envs.len(),
        env_index_of(envs, name) >= 0 ==> envs[env_index_of(envs, name)].name == name,
        env_index_of(envs, name) < 0 ==> forall|i: int| 0 <= i < envs.len() ==> envs[i].name != name,
    decreases envs.len(),
{
    if envs.len() > 0 {
        lemma_env_index_of(envs.drop_last(), name);
        assert forall|i: int| 0 <= i < envs.len() - 1 implies envs[i] == envs.drop_last()[i] by {}
    }
}

/// Position of the environment named `name`.
pub fn find_environment(envs: &[Environment], name: &str) -> (r: Option<usize>)
    ensures
        match r {
            Some(i) => i as int == env_index_of(env_views(envs@), name@) && i < envs@.len(),
            None => env_index_of(env_views(envs@), name@) == -1,
        },
{
    let ghost ev = env_views(envs@);
    let mut i: usize = 0;
    while i < envs.len()
        invariant
            i <= envs@.len(),
            ev == env_views(envs@),
            env_index_of(ev.take(i as int), name@) == -1,
        decreases envs.len() - i,
    {
        let ghost t = ev.take(i + 1);
        assert(t.drop_last() =~= ev.take(i as int));
        assert(t.last() == envs@[i as int]@);
        if str_eq(envs[i].name.as_str(), name) {
            proof {
                lemma_env_index_prefix(ev, name@, i + 1);
            }
            return Some(i);
        }
        i = i + 1;
    }
    assert(ev.take(ev.len() as int) =~= ev);
    None
}

proof fn lemma_env_index_prefix(s: Seq<EnvironmentView>, name: Seq<char>, k: int)
    requires
        0 <= k <= s.len(),
        env_index_of(s.take(k), name) >= 0,
    ensures
        env_index_of(s, name) == env_index_of(s.take(k), name),
    decreases s.len() - k,
{
    if k == s.len() {
        assert(s.take(k) =~= s);
    } else {
        assert(s.drop_last().take(k) =~= s.take(k));
        lemma_env_index_prefix(s.drop_last(), name, k);
    }
}

impl EnvironmentIndex {
    /// The position `index` when there are more environments than that.
    pub fn new(index: usize, envs: &[Environment]) -> (r: Option<Self>)
        ensures
            match r {
                Some(i) => index < envs@.len() && i@ == index,
                None => index >= envs@.len(),
            },
    {
        if index < envs.len() {
            Some(EnvironmentIndex(index))
        } else {
            None
        }
    }

    /// The position of the first environment named `name`.
    pub fn find(name: &str, envs: &[Environment]) -> (r: Option<Self>)
        ensures
            match r {
                Some(i) => i@ as int == env_index_of(env_views(envs@), name@) && i@ < envs@.len(),
                None => env_index_of(env_views(envs@), name@) == -1,
            },
    {
        match find_environment(envs, name) {
            Some(i) => Some(EnvironmentIndex(i)),
            None => None,
        }
    }

    pub fn get(self) -> (r: usize)
        ensures
            r == self@,
    {
        self.0
    }
}

// ---------------------------------------------------------------------------
// Edit mode
// ---------------------------------------------------------------------------

/// What can be marked in edit mode: a whole `.http` file, or one request.
#[derive(Debug)]
pub enum EditTarget {
    Collection(String),
    Request(RequestId),
}

pub ghost enum EditTargetView {
    Collection(Seq<char>),
    Request(RequestIdView),
}

impl View for EditTarget {
    type V = EditTargetView;

    open spec fn view(&self) -> EditTargetView {
        match self {
            EditTarget::Collection(p) => EditTargetView::Collection(p@),
            EditTarget::Request(id) => EditTargetView::Request(id@),
        }
    }
}

impl Clone for EditTarget {
    fn clone(&self) -> (r: Self)
        ensures
            r@ == self@,
    {
        match self {
            EditTarget::Collection(p) => EditTarget::Collection(p.clone()),
            EditTarget::Request(id) => EditTarget::Request(id.clone()),
        }
    }
}

impl PartialEq for EditTarget {
    fn eq(&self, other: &Self) -> (r: bool) {
        match (self, other) {
            (EditTarget::Collection(a), EditTarget::Collection(b)) => str_eq(a.as_str(), b.as_str()),
            (EditTarget::Request(a), EditTarget::Request(b)) => a == b,
            _ => false,
        }
    }
}

impl Eq for EditTarget {

}

impl vstd::std_specs::cmp::PartialEqSpecImpl for EditTarget {
    open spec fn obeys_eq_spec() -> bool {
        true
    }

    open spec fn eq_spec(&self, other: &EditTarget) -> bool {
        self@ == other@
    }
}

pub open spec fn target_views(v: Seq<EditTarget>) -> Seq<EditTargetView> {
    v.map_values(|t: EditTarget| t@)
}

/// Edit mode, with the marked items while it is on.
#[derive(Debug)]
pub enum EditState {
    Off,
    On { selection: Vec<EditTarget> },
}

impl View for EditState {
    type V = Option<Set<EditTargetView>>;

    open spec fn view(&self) -> Option<Set<EditTargetView>> {
        match self {
            EditState::Off => None,
            EditState::On { selection } => Some(target_views(selection@).to_set()),
        }
    }
}

impl Default for EditState {
    fn default() -> (r: Self)
        ensures
            r@ is None,
    {
        EditState::Off
    }
}

/// Marks an item that is not marked, and unmarks one that is.
pub open spec fn toggle_spec(s: Set<EditTargetView>, t: EditTargetView) -> Set<EditTargetView> {
    if s.contains(t) {
        s.remove(t)
    } else {
        s.insert(t)
    }
}

/// Toggling the same item twice leaves the marks as they were.
pub proof fn lemma_toggle_twice(s: Set<EditTargetView>, t: EditTargetView)
    ensures
        toggle_spec(toggle_spec(s, t), t) == s,
{
    assert(toggle_spec(toggle_spec(s, t), t) =~= s);
}

impl EditState {
    /// Whether edit mode is on.
    pub fn is_on(&self) -> (r: bool)
        ensures
            r == self@ is Some,
    {
        match self {
            EditState::Off => false,
            EditState::On { .. } => true,
        }
    }

    /// Toggles the mark on `target`; nothing happens outside edit mode.
    pub fn toggle_selection(&mut self, target: EditTarget)
        ensures
            final(self)@ == match old(self)@ {
                Some(s) => Some(toggle_spec(s, target@)),
                None => None::<Set<EditTargetView>>,
            },
    {
        if let EditState::On { selection } = self {
            let ghost before = target_views(selection@);
            let mut i: usize = 0;
            let mut found: Option<usize> = None;
            while i < selection.len()
                invariant
                    i <= selection@.len(),
                    before == target_views(selection@),
                    match found {
                        Some(k) => k < selection@.len() && before[k as int] == target@,
                        None => forall|j: int| 0 <= j < i ==> before[j] != target@,
                    },
                decreases selection.len() - i,
            {
                if found.is_none() && selection[i] == target {
                    found = Some(i);
                }
                i = i + 1;
            }
            match found {
                Some(_) => {
                    let mut kept: Vec<EditTarget> = Vec::new();
                    let mut j: usize = 0;
                    while j < selection.len()
                        invariant
                            j <= selection@.len(),
                            before == target_views(selection@),
                            before.to_set().contains(target@),
                            target_views(kept@).to_set() == before.take(j as int).to_set().remove(target@),
                        decreases selection.len() - j,
                    {
                        proof {
                            assert(before.take(j + 1) =~= before.take(j as int).push(before[j as int]));
                            before.take(j as int).lemma_push_to_set_commute(before[j as int]);
                        }
                        if !(selection[j] == target) {
                            let x = selection[j].clone();
                            let ghost kb = target_views(kept@);
                            kept.push(x);
                            assert(target_views(kept@) =~= kb.push(x@));
                            proof {
                                kb.lemma_push_to_set_commute(x@);
                            }
                            assert(target_views(kept@).to_set() =~= before.take(j + 1).to_set().remove(target@));
                        } else {
                            assert(target_views(kept@).to_set() =~= before.take(j + 1).to_set().remove(target@));
                        }
                        j = j + 1;
                    }
                    assert(before.take(before.len() as int) =~= before);
                    *selection = kept;
                },
                None => {
                    proof {
                        assert(!before.to_set().contains(target@));
                        before.lemma_push_to_set_commute(target@);
                    }
                    let ghost tv = target@;
                    selection.push(target);
                    assert(target_views(selection@) =~= before.push(tv));
                },
            }
        }
    }

    /// Unmarks everything, staying in edit mode.
    pub fn clear_selection(&mut self)
        ensures
            final(self)@ == match old(self)@ {
                Some(_) => Some(Set::<EditTargetView>::empty()),
                None => None::<Set<EditTargetView>>,
            },
    {
        if let EditState::On { selection } = self {
            selection.clear();
            assert(target_views(selection@).to_set() =~= Set::<EditTargetView>::empty());
        }
    }
}

// ---------------------------------------------------------------------------
// Start-up
// ---------------------------------------------------------------------------

/// What the status line says at start-up.
#[derive(Debug, Clone, Copy, PartialEq, Eq, Structural)]
pub enum StartupStatus {
    Ready,
    NeedsProject,
    WarningReady { ignored: usize },
    WarningNeedsProject { ignored: usize },
}

impl StartupStatus {
    /// The start-up status: whether saved folders were ignored and whether a project is
    /// configured.
    pub fn from_context(startup_warnings: &[String], configuration: &ProjectConfiguration) -> (r: Self)
        ensures
            r == (if startup_warnings@.len() == 0 {
                if configuration@.configured {
                    StartupStatus::Ready
                } else {
                    StartupStatus::NeedsProject
                }
            } else if configuration@.configured {
                StartupStatus::WarningReady { ignored: startup_warnings@.len() as usize }
            } else {
                StartupStatus::WarningNeedsProject { ignored: startup_warnings@.len() as usize }
            }),
    {
        match (startup_warnings.len() == 0, configuration.should_scan()) {
            (true, true) => StartupStatus::Ready,
            (true, false) => StartupStatus::NeedsProject,
            (false, true) => StartupStatus::WarningReady { ignored: startup_warnings.len() },
            (false, false) => StartupStatus::WarningNeedsProject { ignored: startup_warnings.len() },
        }
    }

    pub fn status_line(self) -> (r: String)
        ensures
            r@ == match self {
                StartupStatus::Ready => "Ready"@,
                StartupStatus::NeedsProject => "No projects configured. Add a project folder to start."@,
                StartupStatus::WarningReady { ignored } => "Ignored "@ + decimal(ignored as nat)
                    + " invalid saved folder(s)."@,
                StartupStatus::WarningNeedsProject { ignored } => "Ignored "@ + decimal(ignored as nat)
                    + " invalid saved folder(s). Add a project folder to start."@,
            },
    {
        match self {
            StartupStatus::Ready => String::from_str("Ready"),
            StartupStatus::NeedsProject => String::from_str("No projects configured. Add a project folder to start."),
            StartupStatus::WarningReady { ignored } => {
                let mut m = String::from_str("Ignored ");
                push_chars(&mut m, &decimal_string(ignored as u64));
                push_str(&mut m, " invalid saved folder(s).");
                m
            },
            StartupStatus::WarningNeedsProject { ignored } => {
                let mut m = String::from_str("Ignored ");
                push_chars(&mut m, &decimal_string(ignored as u64));
                push_str(&mut m, " invalid saved folder(s). Add a project folder to start.");
                m
            },
        }
    }
}

pub open spec fn probe_check(path: Seq<char>, probe: PathProbe) -> Result<Seq<char>, RootPathErrorView> {
    check_folder(path, probe.exists, probe.is_dir, opt_view(probe.canonical))
}

/// The folders among `paths` that are still folders, as the probes of them say.
pub open spec fn kept_folders(paths: Seq<Seq<char>>, probes: Seq<PathProbe>) -> Seq<Seq<char>>
    decreases paths.len(),
{
    if paths.len() == 0 {
        Seq::empty()
    } else {
        let rest = kept_folders(paths.drop_last(), probes);
        match probe_check(paths.last(), probes[paths.len() - 1]) {
            Ok(p) => rest.push(p),
            Err(_) => rest,
        }
    }
}

/// How many of `paths` are no longer folders.
pub open spec fn ignored_count(paths: Seq<Seq<char>>, probes: Seq<PathProbe>) -> nat
    decreases paths.len(),
{
    if paths.len() == 0 {
        0
    } else {
        ignored_count(paths.drop_last(), probes) + (if probe_check(paths.last(), probes[paths.len() - 1]) is Err {
            1nat
        } else {
            0nat
        })
    }
}

/// The configuration the saved state gives, with a warning for each saved folder that is
/// no longer a folder. `project_probes` and `global_probes` are what the file system says of
/// each saved folder, in order.
pub fn load_configured_roots(
    state: &AppState,
    project_probes: &[PathProbe],
    global_probes: &[PathProbe],
) -> (r: (ProjectConfiguration, Vec<String>))
    requires
        project_probes@.len() == state.project_roots@.len(),
        global_probes@.len() == state.global_env_roots@.len(),
    ensures
        r.0@.projects == kept_folders(string_views(state.project_roots@), project_probes@),
        r.0@.globals == kept_folders(string_views(state.global_env_roots@), global_probes@),
        r.0@.configured == (r.0@.projects.len() > 0),
        r.1@.len() == ignored_count(string_views(state.project_roots@), project_probes@) + ignored_count(
            string_views(state.global_env_roots@),
            global_probes@,
        ),
{
    let mut warnings: Vec<String> = Vec::new();
    let mut project_roots: Vec<ProjectRoot> = Vec::new();
    let ghost pv = string_views(state.project_roots@);
    let mut i: usize = 0;
    while i < state.project_roots.len()
        invariant
            i <= pv.len(),
            pv == string_views(state.project_roots@),
            project_probes@.len() == pv.len(),
            project_views(project_roots@) == kept_folders(pv.take(i as int), project_probes@),
            warnings@.len() == ignored_count(pv.take(i as int), project_probes@),
        decreases state.project_roots.len() - i,
    {
        let ghost t = pv.take(i + 1);
        assert(t.drop_last() =~= pv.take(i as int));
        assert(t.last() == state.project_roots@[i as int]@);
        let path = state.project_roots[i].clone();
        match ProjectRoot::from_stored(path.clone(), &project_probes[i]) {
            Some(root) => {
                let ghost before = project_views(project_roots@);
                project_roots.push(root);
                assert(project_views(project_roots@) =~= before.push(root@));
            },
            None => {
                let mut m = String::from_str("Ignoring saved project folder ");
                push_str(&mut m, path.as_str());
                push_str(&mut m, ": ");
                if let Err(e) = DirectoryRoot::from_path(path, &project_probes[i]) {
                    let em = e.message();
                    push_str(&mut m, em.as_str());
                }
                warnings.push(m);
            },
        }
        i = i + 1;
    }
    assert(pv.take(pv.len() as int) =~= pv);
    let mut global_env_roots: Vec<GlobalEnvRoot> = Vec::new();
    let ghost gv = string_views(state.global_env_roots@);
    let ghost w0 = warnings@.len();
    let mut j: usize = 0;
    while j < state.global_env_roots.len()
        invariant
            j <= gv.len(),
            gv == string_views(state.global_env_roots@),
            global_probes@.len() == gv.len(),
            global_views(global_env_roots@) == kept_folders(gv.take(j as int), global_probes@),
            warnings@.len() == w0 + ignored_count(gv.take(j as int), global_probes@),
        decreases state.global_env_roots.len() - j,
    {
        let ghost t = gv.take(j + 1);
        assert(t.drop_last() =~= gv.take(j as int));
        assert(t.last() == state.global_env_roots@[j as int]@);
        let path = state.global_env_roots[j].clone();
        match GlobalEnvRoot::from_stored(path.clone(), &global_probes[j]) {
            Some(root) => {
                let ghost before = global_views(global_env_roots@);
                global_env_roots.push(root);
                assert(global_views(global_env_roots@) =~= before.push(root@));
            },
            None => {
                let mut m = String::from_str("Ignoring saved global env folder ");
                push_str(&mut m, path.as_str());
                push_str(&mut m, ": ");
                if let Err(e) = DirectoryRoot::from_path(path, &global_probes[j]) {
                    let em = e.message();
                    push_str(&mut m, em.as_str());
                }
                warnings.push(m);
            },
        }
        j = j + 1;
    }
    assert(gv.take(gv.len() as int) =~= gv);
    let configuration = ProjectConfiguration::from_loaded(project_roots, global_env_roots);
    (configuration, warnings)
}


/// Whether a marked item lies in the folder `root`.
pub open spec fn target_under(t: EditTargetView, root: Seq<char>) -> bool {
    match t {
        EditTargetView::Collection(p) => crate::paths::path_starts_with(p, root),
        EditTargetView::Request(RequestIdView::HttpFile { path, .. }) => crate::paths::path_starts_with(path, root),
        _ => false,
    }
}

fn is_under(t: &EditTarget, root: &str) -> (r: bool)
    ensures
        r == target_under(t@, root@),
{
    match t {
        EditTarget::Collection(p) => crate::paths::starts_with(p.as_str(), root),
        EditTarget::Request(RequestId::HttpFile { path, .. }) => crate::paths::starts_with(path.as_str(), root),
        _ => false,
    }
}

impl EditState {
    /// Unmarks every item in the folder `root`.
    pub fn remove_targets_under(&mut self, root: &str)
        ensures
            final(self)@ == match old(self)@ {
                Some(s) => Some(s.filter(|t: EditTargetView| !target_under(t, root@))),
                None => None::<Set<EditTargetView>>,
            },
    {
        if let EditState::On { selection } = self {
            let ghost before = target_views(selection@);
            let mut kept: Vec<EditTarget> = Vec::new();
            let mut j: usize = 0;
            while j < selection.len()
                invariant
                    j <= selection@.len(),
                    before == target_views(selection@),
                    target_views(kept@).to_set() == before.take(j as int).to_set().filter(
                        |t: EditTargetView| !target_under(t, root@),
                    ),
                decreases selection.len() - j,
            {
                proof {
                    assert(before.take(j + 1) =~= before.take(j as int).push(before[j as int]));
                    before.take(j as int).lemma_push_to_set_commute(before[j as int]);
                }
                if !is_under(&selection[j], root) {
                    let x = selection[j].clone();
                    let ghost kb = target_views(kept@);
                    kept.push(x);
                    assert(target_views(kept@) =~= kb.push(x@));
                    proof {
                        kb.lemma_push_to_set_commute(x@);
                    }
                }
                assert(target_views(kept@).to_set() =~= before.take(j + 1).to_set().filter(
                    |t: EditTargetView| !target_under(t, root@),
                ));
                j = j + 1;
            }
            assert(before.take(before.len() as int) =~= before);
            *selection = kept;
        }
    }
}

} // verus!
