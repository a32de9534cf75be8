//! The configured project and global-environment folders, and how adding and removing
//! them changes what is scanned.
use vstd::prelude::*;
use vstd::std_specs::cmp::PartialEqSpec;

use crate::env::{lemma_lex_lt_total, lex_lt};
use crate::pathing::{GlobalEnvRoot, ProjectRoot};
use crate::paths::{component_count, path_component_count, path_starts_with, starts_with as path_has_prefix};
use crate::status::strictly_sorted;
use crate::text::{chars_of, str_eq, string_of, views};
use vec1::Vec1;

verus! {

#[verifier::external_type_specification]
#[verifier::external_body]
#[verifier::reject_recursive_types(T)]
pub struct ExVec1<T>(Vec1<T>);

/// The folders a `Vec1` of project roots holds, in order.
pub uninterp spec fn vec1_roots(v: Vec1<ProjectRoot>) -> Seq<Seq<char>>;

/// `Vec1::new`: a list holding just `first`.
#[verifier::external_body]
fn vec1_new(first: ProjectRoot) -> (r: Vec1<ProjectRoot>)
    ensures
        vec1_roots(r) == seq![first@],
{
    Vec1::new(first)
}

/// `Vec1::push`: appends at the end.
#[verifier::external_body]
fn vec1_push(v: &mut Vec1<ProjectRoot>, item: ProjectRoot)
    ensures
        vec1_roots(*final(v)) == vec1_roots(*old(v)).push(item@),
{
    v.push(item)
}

/// `Vec1::first`.
#[verifier::external_body]
fn vec1_first(v: &Vec1<ProjectRoot>) -> (r: &ProjectRoot)
    ensures
        r@ == vec1_roots(*v)[0],
{
    v.first()
}

/// `Vec1::as_slice`.
#[verifier::external_body]
fn vec1_as_slice(v: &Vec1<ProjectRoot>) -> (r: &[ProjectRoot])
    ensures
        project_views(r@) == vec1_roots(*v),
{
    v.as_slice()
}

pub open spec fn project_views(s: Seq<ProjectRoot>) -> Seq<Seq<char>> {
    s.map_values(|r: ProjectRoot| r@)
}

pub open spec fn global_views(s: Seq<GlobalEnvRoot>) -> Seq<Seq<char>> {
    s.map_values(|r: GlobalEnvRoot| r@)
}

/// `s` without any element equal to `x`.
pub open spec fn remove_all(s: Seq<Seq<char>>, x: Seq<char>) -> Seq<Seq<char>>
    decreases s.len(),
{
    if s.len() == 0 {
        s
    } else {
        remove_all(s.drop_last(), x) + (if s.last() == x {
            Seq::empty()
        } else {
            seq![s.last()]
        })
    }
}

pub proof fn lemma_remove_all(s: Seq<Seq<char>>, x: Seq<char>)
    ensures
        remove_all(s, x).len() <= s.len(),
        remove_all(s, x).len() == s.len() <==> !s.contains(x),
        !remove_all(s, x).contains(x),
        forall|y: Seq<char>| y != x ==> (remove_all(s, x).contains(y) <==> s.contains(y)),
        !s.contains(x) ==> remove_all(s, x) == s,
    decreases s.len(),
{
    if s.len() > 0 {
        lemma_remove_all(s.drop_last(), x);
        let r = remove_all(s.drop_last(), x);
        assert forall|y: Seq<char>| y != x implies (remove_all(s, x).contains(y) <==> s.contains(y)) by {
            if s.contains(y) {
                let k = choose|k: int| 0 <= k < s.len() && s[k] == y;
                if k < s.len() - 1 {
                    assert(s.drop_last()[k] == y);
                    assert(s.drop_last().contains(y));
                    assert(r.contains(y));
                    let m = choose|m: int| 0 <= m < r.len() && r[m] == y;
                    assert(remove_all(s, x)[m] == y);
                } else {
                    assert(remove_all(s, x)[r.len() as int] == y);
                }
            }
            if remove_all(s, x).contains(y) {
                let m = choose|m: int| 0 <= m < remove_all(s, x).len() && remove_all(s, x)[m] == y;
                if m < r.len() {
                    assert(r[m] == y);
                    assert(r.contains(y));
                    assert(s.drop_last().contains(y));
                    let k = choose|k: int| 0 <= k < s.drop_last().len() && s.drop_last()[k] == y;
                    assert(s[k] == s.drop_last()[k]);
                } else {
                    assert(s[s.len() - 1] == y);
                }
            }
        }
        if remove_all(s, x).contains(x) {
            let m = choose|m: int| 0 <= m < remove_all(s, x).len() && remove_all(s, x)[m] == x;
            if m < r.len() {
                assert(r[m] == x);
            }
        }
        if s.contains(x) {
            let k = choose|k: int| 0 <= k < s.len() && s[k] == x;
            if k < s.len() - 1 {
                assert(s.drop_last()[k] == x);
            }
        } else {
            assert(!s.drop_last().contains(x)) by {
                if s.drop_last().contains(x) {
                    let k = choose|k: int| 0 <= k < s.drop_last().len() && s.drop_last()[k] == x;
                    assert(s[k] == x);
                }
            }
            assert(s.drop_last().push(s.last()) =~= s);
        }
    }
}

#[derive(Debug, Clone, Copy, PartialEq, Eq, Structural)]
pub enum ProjectChangeOutcome {
    AddedAndScan,
    RemovedAndScan,
    RemovedLastProject,
}

impl ProjectChangeOutcome {
    pub fn status_message(self) -> (m: &'static str)
        ensures
            m@ == match self {
                ProjectChangeOutcome::AddedAndScan => "Project added. Scanning..."@,
                ProjectChangeOutcome::RemovedAndScan => "Project removed. Rescanning..."@,
                ProjectChangeOutcome::RemovedLastProject => "No projects configured. Add a project folder to start."@,
            },
    {
        match self {
            ProjectChangeOutcome::AddedAndScan => "Project added. Scanning...",
            ProjectChangeOutcome::RemovedAndScan => "Project removed. Rescanning...",
            ProjectChangeOutcome::RemovedLastProject => "No projects configured. Add a project folder to start.",
        }
    }
}

#[derive(Debug, Clone, Copy, PartialEq, Eq, Structural)]
pub enum GlobalEnvChangeOutcome {
    AddedRescan,
    AddedIdle,
    RemovedRescan,
    RemovedIdle,
}

impl GlobalEnvChangeOutcome {
    pub fn status_message(self) -> (m: &'static str)
        ensures
            m@ == match self {
                GlobalEnvChangeOutcome::AddedRescan => "Global env folder added. Scanning..."@,
                GlobalEnvChangeOutcome::AddedIdle => "Global env folder added. Add a project folder to scan requests."@,
                GlobalEnvChangeOutcome::RemovedRescan => "Global env folder removed. Rescanning..."@,
                GlobalEnvChangeOutcome::RemovedIdle => "Global env folder removed. Add a project folder to scan requests."@,
            },
    {
        match self {
            GlobalEnvChangeOutcome::AddedRescan => "Global env folder added. Scanning...",
            GlobalEnvChangeOutcome::AddedIdle => "Global env folder added. Add a project folder to scan requests.",
            GlobalEnvChangeOutcome::RemovedRescan => "Global env folder removed. Rescanning...",
            GlobalEnvChangeOutcome::RemovedIdle => "Global env folder removed. Add a project folder to scan requests.",
        }
    }
}

#[derive(Debug, Clone, Copy, PartialEq, Eq, Structural)]
pub enum RootOpError {
    ProjectAlreadyExists,
    ProjectMissing,
    GlobalEnvAlreadyExists,
    GlobalEnvMissing,
}

impl RootOpError {
    /// The message shown for the error.
    pub fn message(self) -> (m: &'static str)
        ensures
            m@ == match self {
                RootOpError::ProjectAlreadyExists => "Project already configured"@,
                RootOpError::ProjectMissing => "Project is not configured"@,
                RootOpError::GlobalEnvAlreadyExists => "Global environment folder already configured"@,
                RootOpError::GlobalEnvMissing => "Global environment folder is not configured"@,
            },
    {
        match self {
            RootOpError::ProjectAlreadyExists => "Project already configured",
            RootOpError::ProjectMissing => "Project is not configured",
            RootOpError::GlobalEnvAlreadyExists => "Global environment folder already configured",
            RootOpError::GlobalEnvMissing => "Global environment folder is not configured",
        }
    }
}

#[derive(Debug)]
pub enum ProjectConfiguration {
    Unconfigured { global_env_roots: Vec<GlobalEnvRoot> },
    Configured { project_roots: Vec1<ProjectRoot>, global_env_roots: Vec<GlobalEnvRoot> },
}

/// The configuration as plain values: whether projects are configured, the project
/// folders and the global environment folders.
pub ghost struct ConfigView {
    pub configured: bool,
    pub projects: Seq<Seq<char>>,
    pub globals: Seq<Seq<char>>,
}

impl View for ProjectConfiguration {
    type V = ConfigView;

    open spec fn view(&self) -> ConfigView {
        match self {
            ProjectConfiguration::Unconfigured { global_env_roots } => ConfigView {
                configured: false,
                projects: Seq::empty(),
                globals: global_views(global_env_roots@),
            },
            ProjectConfiguration::Configured { project_roots, global_env_roots } => ConfigView {
                configured: true,
                projects: vec1_roots(*project_roots),
                globals: global_views(global_env_roots@),
            },
        }
    }
}

/// A configuration is consistent when it is configured exactly when it has projects.
pub open spec fn config_wf(c: ConfigView) -> bool {
    c.configured <==> c.projects.len() > 0
}

/// Adding a project folder: the first one configures the workspace; a folder already
/// configured is refused.
pub open spec fn add_project_spec(c: ConfigView, root: Seq<char>) -> (ConfigView, Result<ProjectChangeOutcome, RootOpError>) {
    if !c.configured {
        (ConfigView { configured: true, projects: seq![root], globals: c.globals }, Ok(ProjectChangeOutcome::AddedAndScan))
    } else if c.projects.contains(root) {
        (c, Err(RootOpError::ProjectAlreadyExists))
    } else {
        (ConfigView { projects: c.projects.push(root), ..c }, Ok(ProjectChangeOutcome::AddedAndScan))
    }
}

/// Removing a project folder: removing the last one unconfigures the workspace and keeps
/// the global folders; a folder not configured is refused.
pub open spec fn remove_project_spec(c: ConfigView, root: Seq<char>) -> (ConfigView, Result<ProjectChangeOutcome, RootOpError>) {
    if !c.configured {
        (c, Err(RootOpError::ProjectMissing))
    } else {
        let rest = remove_all(c.projects, root);
        if rest.len() == c.projects.len() {
            (c, Err(RootOpError::ProjectMissing))
        } else if rest.len() == 0 {
            (ConfigView { configured: false, projects: Seq::empty(), globals: c.globals }, Ok(ProjectChangeOutcome::RemovedLastProject))
        } else {
            (ConfigView { projects: rest, ..c }, Ok(ProjectChangeOutcome::RemovedAndScan))
        }
    }
}

/// Adding a global environment folder; a folder already configured is refused.
pub open spec fn add_global_env_spec(c: ConfigView, root: Seq<char>) -> (ConfigView, Result<GlobalEnvChangeOutcome, RootOpError>) {
    if c.globals.contains(root) {
        (c, Err(RootOpError::GlobalEnvAlreadyExists))
    } else {
        (
            ConfigView { globals: c.globals.push(root), ..c },
            Ok(if c.configured { GlobalEnvChangeOutcome::AddedRescan } else { GlobalEnvChangeOutcome::AddedIdle }),
        )
    }
}

/// Removing a global environment folder; a folder not configured is refused.
pub open spec fn remove_global_env_spec(c: ConfigView, root: Seq<char>) -> (ConfigView, Result<GlobalEnvChangeOutcome, RootOpError>) {
    let rest = remove_all(c.globals, root);
    if rest.len() == c.globals.len() {
        (c, Err(RootOpError::GlobalEnvMissing))
    } else {
        (
            ConfigView { globals: rest, ..c },
            Ok(if c.configured { GlobalEnvChangeOutcome::RemovedRescan } else { GlobalEnvChangeOutcome::RemovedIdle }),
        )
    }
}

/// Index of the project folder that holds `path`: among the folders it starts with, the
/// one with the most components, the last one on a tie.
pub open spec fn best_root_index(roots: Seq<Seq<char>>, path: Seq<char>) -> Option<int>
    decreases roots.len(),
{
    if roots.len() == 0 {
        None
    } else {
        let prev = best_root_index(roots.drop_last(), path);
        let i = roots.len() - 1;
        if path_starts_with(path, roots[i]) {
            match prev {
                None => Some(i),
                Some(j) => if path_component_count(roots[i]) >= path_component_count(roots[j]) {
                    Some(i)
                } else {
                    Some(j)
                },
            }
        } else {
            prev
        }
    }
}

pub proof fn lemma_best_root_index(roots: Seq<Seq<char>>, path: Seq<char>)
    ensures
        best_root_index(roots, path) matches Some(i) ==> 0 <= i < roots.len() && path_starts_with(path, roots[i]),
    decreases roots.len(),
{
    if roots.len() > 0 {
        lemma_best_root_index(roots.drop_last(), path);
    }
}

/// Copies a list of global folders.
fn clone_globals(v: &Vec<GlobalEnvRoot>) -> (r: Vec<GlobalEnvRoot>)
    ensures
        global_views(r@) == global_views(v@),
{
    let mut r: Vec<GlobalEnvRoot> = Vec::new();
    let mut i: usize = 0;
    while i < v.len()
        invariant
            i <= v@.len(),
            r@.len() == i,
            global_views(r@) == global_views(v@.take(i as int)),
        decreases v.len() - i,
    {
        let ghost prev = r@;
        r.push(v[i].clone());
        proof {
            assert forall|j: int| 0 <= j < i + 1 implies global_views(r@)[j] == global_views(v@.take(i + 1))[j] by {
                if j < i {
                    assert(global_views(prev)[j] == global_views(v@.take(i as int))[j]);
                }
            }
            assert(global_views(r@) =~= global_views(v@.take(i + 1)));
        }
        i = i + 1;
    }
    assert(v@.take(v@.len() as int) =~= v@);
    r
}

/// A `Vec1` holding the folders of a non-empty list, in order.
fn vec1_from_vec(values: Vec<ProjectRoot>) -> (r: Option<Vec1<ProjectRoot>>)
    ensures
        match r {
            Some(v) => values@.len() > 0 && vec1_roots(v) == project_views(values@),
            None => values@.len() == 0,
        },
{
    if values.len() == 0 {
        return None;
    }
    let ghost all = project_views(values@);
    let mut non_empty = vec1_new(values[0].clone());
    assert(seq![all[0]] =~= all.take(1));
    let mut i: usize = 1;
    while i < values.len()
        invariant
            1 <= i <= values@.len(),
            all == project_views(values@),
            vec1_roots(non_empty) == all.take(i as int),
        decreases values.len() - i,
    {
        vec1_push(&mut non_empty, values[i].clone());
        assert(all.take(i + 1) =~= all.take(i as int).push(all[i as int]));
        i = i + 1;
    }
    assert(all.take(i as int) =~= all);
    Some(non_empty)
}

} // verus!

verus! {

/// `v` without the folders equal to `root`.
fn projects_without(v: &[ProjectRoot], root: &ProjectRoot) -> (r: Vec<ProjectRoot>)
    ensures
        project_views(r@) == remove_all(project_views(v@), root@),
{
    let mut r: Vec<ProjectRoot> = Vec::new();
    let mut i: usize = 0;
    while i < v.len()
        invariant
            i <= v@.len(),
            project_views(r@) == remove_all(project_views(v@.take(i as int)), root@),
        decreases v.len() - i,
    {
        let ghost prev = project_views(r@);
        let ghost t = project_views(v@.take(i + 1));
        assert(t.drop_last() =~= project_views(v@.take(i as int)));
        assert(t.last() == v@[i as int]@);
        if !(v[i] == *root) {
            r.push(v[i].clone());
            assert(project_views(r@) =~= prev + seq![v@[i as int]@]);
        } else {
            assert(project_views(r@) =~= prev + Seq::<Seq<char>>::empty());
        }
        i = i + 1;
    }
    assert(v@.take(v@.len() as int) =~= v@);
    r
}

/// `v` without the folders equal to `root`.
fn globals_without(v: &Vec<GlobalEnvRoot>, root: &GlobalEnvRoot) -> (r: Vec<GlobalEnvRoot>)
    ensures
        global_views(r@) == remove_all(global_views(v@), root@),
{
    let mut r: Vec<GlobalEnvRoot> = Vec::new();
    let mut i: usize = 0;
    while i < v.len()
        invariant
            i <= v@.len(),
            global_views(r@) == remove_all(global_views(v@.take(i as int)), root@),
        decreases v.len() - i,
    {
        let ghost prev = global_views(r@);
        let ghost t = global_views(v@.take(i + 1));
        assert(t.drop_last() =~= global_views(v@.take(i as int)));
        assert(t.last() == v@[i as int]@);
        if !(v[i] == *root) {
            r.push(v[i].clone());
            assert(global_views(r@) =~= prev + seq![v@[i as int]@]);
        } else {
            assert(global_views(r@) =~= prev + Seq::<Seq<char>>::empty());
        }
        i = i + 1;
    }
    assert(v@.take(v@.len() as int) =~= v@);
    r
}

/// Whether a list of global folders holds `root`.
fn globals_contain(v: &Vec<GlobalEnvRoot>, root: &GlobalEnvRoot) -> (r: bool)
    ensures
        r == global_views(v@).contains(root@),
{
    let mut i: usize = 0;
    while i < v.len()
        invariant
            i <= v@.len(),
            forall|j: int| 0 <= j < i ==> v@[j]@ != root@,
        decreases v.len() - i,
    {
        if v[i] == *root {
            assert(global_views(v@)[i as int] == root@);
            return true;
        }
        i = i + 1;
    }
    assert(!global_views(v@).contains(root@)) by {
        if global_views(v@).contains(root@) {
            let k = choose|k: int| 0 <= k < global_views(v@).len() && global_views(v@)[k] == root@;
            assert(v@[k]@ == root@);
        }
    }
    false
}

/// Whether a list of project folders holds `root`.
fn projects_contain(v: &[ProjectRoot], root: &ProjectRoot) -> (r: bool)
    ensures
        r == project_views(v@).contains(root@),
{
    let mut i: usize = 0;
    while i < v.len()
        invariant
            i <= v@.len(),
            forall|j: int| 0 <= j < i ==> v@[j]@ != root@,
        decreases v.len() - i,
    {
        if v[i] == *root {
            assert(project_views(v@)[i as int] == root@);
            return true;
        }
        i = i + 1;
    }
    assert(!project_views(v@).contains(root@)) by {
        if project_views(v@).contains(root@) {
            let k = choose|k: int| 0 <= k < project_views(v@).len() && project_views(v@)[k] == root@;
            assert(v@[k]@ == root@);
        }
    }
    false
}

impl ProjectConfiguration {
    pub fn from_loaded(project_roots: Vec<ProjectRoot>, global_env_roots: Vec<GlobalEnvRoot>) -> (c: Self)
        ensures
            c@ == (ConfigView {
                configured: project_roots@.len() > 0,
                projects: project_views(project_roots@),
                globals: global_views(global_env_roots@),
            }),
    {
        match vec1_from_vec(project_roots) {
            Some(project_roots) => ProjectConfiguration::Configured { project_roots, global_env_roots },
            None => {
                let c = ProjectConfiguration::Unconfigured { global_env_roots };
                assert(project_views(project_roots@) =~= Seq::<Seq<char>>::empty());
                c
            },
        }
    }

    pub fn should_scan(&self) -> (r: bool)
        ensures
            r == self@.configured,
    {
        match self {
            ProjectConfiguration::Configured { .. } => true,
            ProjectConfiguration::Unconfigured { .. } => false,
        }
    }

    pub fn project_roots(&self) -> (r: &[ProjectRoot])
        ensures
            project_views(r@) == self@.projects,
    {
        match self {
            ProjectConfiguration::Unconfigured { .. } => {
                let empty: &[ProjectRoot] = &[];
                assert(project_views(empty@) =~= Seq::<Seq<char>>::empty());
                empty
            },
            ProjectConfiguration::Configured { project_roots, .. } => vec1_as_slice(project_roots),
        }
    }

    pub fn global_env_roots(&self) -> (r: &[GlobalEnvRoot])
        ensures
            global_views(r@) == self@.globals,
    {
        match self {
            ProjectConfiguration::Unconfigured { global_env_roots } => global_env_roots.as_slice(),
            ProjectConfiguration::Configured { global_env_roots, .. } => global_env_roots.as_slice(),
        }
    }

    pub fn project_root_paths(&self) -> (r: Vec<String>)
        ensures
            crate::status::string_views(r@) == self@.projects,
    {
        let roots = self.project_roots();
        let mut r: Vec<String> = Vec::new();
        let mut i: usize = 0;
        while i < roots.len()
            invariant
                i <= roots@.len(),
                r@.len() == i,
                crate::status::string_views(r@) == project_views(roots@).take(i as int),
            decreases roots.len() - i,
        {
            r.push(roots[i].to_path_buf());
            i = i + 1;
            assert(crate::status::string_views(r@) =~= project_views(roots@).take(i as int));
        }
        assert(project_views(roots@).take(roots@.len() as int) =~= project_views(roots@));
        r
    }

    pub fn global_env_root_paths(&self) -> (r: Vec<String>)
        ensures
            crate::status::string_views(r@) == self@.globals,
    {
        let roots = self.global_env_roots();
        let mut r: Vec<String> = Vec::new();
        let mut i: usize = 0;
        while i < roots.len()
            invariant
                i <= roots@.len(),
                r@.len() == i,
                crate::status::string_views(r@) == global_views(roots@).take(i as int),
            decreases roots.len() - i,
        {
            r.push(roots[i].to_path_buf());
            i = i + 1;
            assert(crate::status::string_views(r@) =~= global_views(roots@).take(i as int));
        }
        assert(global_views(roots@).take(roots@.len() as int) =~= global_views(roots@));
        r
    }

    pub fn default_project_root(&self) -> (r: Option<&ProjectRoot>)
        ensures
            match r {
                Some(p) => self@.configured && p@ == self@.projects[0],
                None => !self@.configured,
            },
    {
        match self {
            ProjectConfiguration::Unconfigured { .. } => None,
            ProjectConfiguration::Configured { project_roots, .. } => Some(vec1_first(project_roots)),
        }
    }

    pub fn project_root_for_path(&self, path: &str) -> (r: Option<&ProjectRoot>)
        ensures
            match best_root_index(self@.projects, path@) {
                Some(i) => r matches Some(p) && p@ == self@.projects[i],
                None => r is None,
            },
    {
        let roots = self.project_roots();
        match project_root_for_file(path, roots) {
            Some(b) => {
                assert(project_views(roots@)[b as int] == roots@[b as int]@);
                Some(&roots[b])
            },
            None => None,
        }
    }

    pub fn add_project(&mut self, root: ProjectRoot) -> (r: Result<ProjectChangeOutcome, RootOpError>)
        ensures
            (final(self)@, r) == add_project_spec(old(self)@, root@),
    {
        let ghost c = self@;
        let ghost rv = root@;
        match self {
            ProjectConfiguration::Unconfigured { global_env_roots } => {
                let globals = clone_globals(global_env_roots);
                *self = ProjectConfiguration::Configured { project_roots: vec1_new(root), global_env_roots: globals };
                Ok(ProjectChangeOutcome::AddedAndScan)
            },
            ProjectConfiguration::Configured { project_roots, .. } => {
                if projects_contain(vec1_as_slice(project_roots), &root) {
                    return Err(RootOpError::ProjectAlreadyExists);
                }
                vec1_push(project_roots, root);
                Ok(ProjectChangeOutcome::AddedAndScan)
            },
        }
    }

    pub fn remove_project(&mut self, root: &ProjectRoot) -> (r: Result<ProjectChangeOutcome, RootOpError>)
        ensures
            (final(self)@, r) == remove_project_spec(old(self)@, root@),
    {
        let remaining = match self {
            ProjectConfiguration::Unconfigured { .. } => {
                return Err(RootOpError::ProjectMissing);
            },
            ProjectConfiguration::Configured { project_roots, .. } => projects_without(vec1_as_slice(project_roots), root),
        };
        let ghost c = self@;
        proof {
            lemma_remove_all(c.projects, root@);
        }
        let before_len = self.project_roots().len();
        if remaining.len() == before_len {
            return Err(RootOpError::ProjectMissing);
        }
        let globals = clone_globals_of(self);
        if remaining.len() == 0 {
            *self = ProjectConfiguration::Unconfigured { global_env_roots: globals };
            Ok(ProjectChangeOutcome::RemovedLastProject)
        } else {
            let project_roots = vec1_from_vec(remaining).unwrap();
            *self = ProjectConfiguration::Configured { project_roots, global_env_roots: globals };
            Ok(ProjectChangeOutcome::RemovedAndScan)
        }
    }

    pub fn add_global_env(&mut self, root: GlobalEnvRoot) -> (r: Result<GlobalEnvChangeOutcome, RootOpError>)
        ensures
            (final(self)@, r) == add_global_env_spec(old(self)@, root@),
    {
        match self {
            ProjectConfiguration::Unconfigured { global_env_roots } => {
                if globals_contain(global_env_roots, &root) {
                    return Err(RootOpError::GlobalEnvAlreadyExists);
                }
                let ghost g = global_views(global_env_roots@);
                let ghost rv = root@;
                global_env_roots.push(root);
                assert(global_views(global_env_roots@) =~= g.push(rv));
                Ok(GlobalEnvChangeOutcome::AddedIdle)
            },
            ProjectConfiguration::Configured { global_env_roots, .. } => {
                if globals_contain(global_env_roots, &root) {
                    return Err(RootOpError::GlobalEnvAlreadyExists);
                }
                let ghost g = global_views(global_env_roots@);
                let ghost rv = root@;
                global_env_roots.push(root);
                assert(global_views(global_env_roots@) =~= g.push(rv));
                Ok(GlobalEnvChangeOutcome::AddedRescan)
            },
        }
    }

    pub fn remove_global_env(&mut self, root: &GlobalEnvRoot) -> (r: Result<GlobalEnvChangeOutcome, RootOpError>)
        ensures
            (final(self)@, r) == remove_global_env_spec(old(self)@, root@),
    {
        match self {
            ProjectConfiguration::Unconfigured { global_env_roots } => {
                let rest = globals_without(global_env_roots, root);
                if rest.len() == global_env_roots.len() {
                    return Err(RootOpError::GlobalEnvMissing);
                }
                *global_env_roots = rest;
                Ok(GlobalEnvChangeOutcome::RemovedIdle)
            },
            ProjectConfiguration::Configured { global_env_roots, .. } => {
                let rest = globals_without(global_env_roots, root);
                if rest.len() == global_env_roots.len() {
                    return Err(RootOpError::GlobalEnvMissing);
                }
                *global_env_roots = rest;
                Ok(GlobalEnvChangeOutcome::RemovedRescan)
            },
        }
    }
}

/// A copy of the global folders of a configuration.
fn clone_globals_of(c: &ProjectConfiguration) -> (r: Vec<GlobalEnvRoot>)
    ensures
        global_views(r@) == c@.globals,
{
    match c {
        ProjectConfiguration::Unconfigured { global_env_roots } => clone_globals(global_env_roots),
        ProjectConfiguration::Configured { global_env_roots, .. } => clone_globals(global_env_roots),
    }
}

} // verus!

verus! {

impl ProjectConfiguration {
    /// The folders to watch for changes: project and global folders, without repeats and
    /// in ascending order; none while no project is configured.
    pub fn watch_root_paths(&self) -> (r: Vec<String>)
        ensures
            !self@.configured ==> r@.len() == 0,
            self@.configured ==> strictly_sorted(crate::status::string_views(r@))
                && crate::status::string_views(r@).to_set() == self@.projects.to_set() + self@.globals.to_set(),
    {
        if !self.should_scan() {
            return Vec::new();
        }
        let mut all = self.project_root_paths();
        let globals = self.global_env_root_paths();
        let ghost pv = crate::status::string_views(all@);
        let ghost gv = crate::status::string_views(globals@);
        let mut k: usize = 0;
        while k < globals.len()
            invariant
                k <= globals@.len(),
                gv == crate::status::string_views(globals@),
                crate::status::string_views(all@) == pv + gv.take(k as int),
            decreases globals.len() - k,
        {
            let ghost before = all@;
            let item = globals[k].clone();
            all.push(item);
            proof {
                assert(all@ == before.push(item));
                assert(item@ == gv[k as int]);
                assert(crate::status::string_views(all@) =~= crate::status::string_views(before).push(gv[k as int]));
                assert(gv.take(k + 1) =~= gv.take(k as int).push(gv[k as int]));
            }
            k = k + 1;
        }
        assert(gv.take(gv.len() as int) =~= gv);
        let ghost av = crate::status::string_views(all@);
        let mut sorted: Vec<Vec<char>> = Vec::new();
        let mut i: usize = 0;
        while i < all.len()
            invariant
                i <= all@.len(),
                av == crate::status::string_views(all@),
                strictly_sorted(views(sorted@)),
                views(sorted@).to_set() == av.take(i as int).to_set(),
            decreases all.len() - i,
        {
            crate::status::insert_sorted_unique(&mut sorted, chars_of(all[i].as_str()));
            proof {
                assert(av.take(i + 1) =~= av.take(i as int).push(av[i as int]));
                av.take(i as int).lemma_push_to_set_commute(av[i as int]);
            }
            i = i + 1;
        }
        assert(av.take(av.len() as int) =~= av);
        let mut out: Vec<String> = Vec::new();
        let mut j: usize = 0;
        while j < sorted.len()
            invariant
                j <= sorted@.len(),
                out@.len() == j,
                crate::status::string_views(out@) == views(sorted@).take(j as int),
            decreases sorted.len() - j,
        {
            out.push(string_of(&sorted[j]));
            j = j + 1;
            assert(crate::status::string_views(out@) =~= views(sorted@).take(j as int));
        }
        assert(views(sorted@).take(sorted@.len() as int) =~= views(sorted@));
        proof {
            assert(av.to_set() =~= self@.projects.to_set() + self@.globals.to_set()) by {
                assert forall|x: Seq<char>| av.to_set().contains(x) <==> (self@.projects.to_set() + self@.globals.to_set()).contains(x) by {
                    if av.contains(x) {
                        let k = choose|k: int| 0 <= k < av.len() && av[k] == x;
                        if k < pv.len() {
                            assert(pv[k] == x);
                        } else {
                            assert(gv[k - pv.len()] == x);
                        }
                    }
                    if pv.contains(x) {
                        let k = choose|k: int| 0 <= k < pv.len() && pv[k] == x;
                        assert(av[k] == x);
                    }
                    if gv.contains(x) {
                        let k = choose|k: int| 0 <= k < gv.len() && gv[k] == x;
                        assert(av[k + pv.len()] == x);
                    }
                }
            }
        }
        out
    }
}

// ---------------------------------------------------------------------------
// Laws of the configuration
// ---------------------------------------------------------------------------

pub proof fn lemma_remove_all_push(s: Seq<Seq<char>>, x: Seq<char>)
    requires
        !s.contains(x),
    ensures
        remove_all(s.push(x), x) == s,
{
    lemma_remove_all(s, x);
    assert(s.push(x).drop_last() =~= s);
}

/// Adding a project folder that is not configured and then removing it gives back the
/// configuration as it was, and the removal reports whether projects remain.
pub proof fn lemma_add_then_remove_project(c: ConfigView, root: Seq<char>)
    requires
        config_wf(c),
        !c.projects.contains(root),
    ensures
        remove_project_spec(add_project_spec(c, root).0, root) == (c, Ok::<ProjectChangeOutcome, RootOpError>(
            if c.configured {
                ProjectChangeOutcome::RemovedAndScan
            } else {
                ProjectChangeOutcome::RemovedLastProject
            },
        )),
{
    let a = add_project_spec(c, root).0;
    if c.configured {
        lemma_remove_all_push(c.projects, root);
        lemma_remove_all(c.projects.push(root), root);
        assert(c.projects.push(root).contains(root)) by {
            assert(c.projects.push(root)[c.projects.len() as int] == root);
        }
    } else {
        assert(c.projects =~= Seq::<Seq<char>>::empty());
        lemma_remove_all_push(Seq::<Seq<char>>::empty(), root);
        assert(Seq::<Seq<char>>::empty().push(root) =~= seq![root]);
    }
}

/// Adding a global folder that is not configured and then removing it gives back the
/// configuration as it was.
pub proof fn lemma_add_then_remove_global_env(c: ConfigView, root: Seq<char>)
    requires
        !c.globals.contains(root),
    ensures
        remove_global_env_spec(add_global_env_spec(c, root).0, root).0 == c,
        remove_global_env_spec(add_global_env_spec(c, root).0, root).1 is Ok,
{
    lemma_remove_all_push(c.globals, root);
    lemma_remove_all(c.globals.push(root), root);
    assert(c.globals.push(root).contains(root)) by {
        assert(c.globals.push(root)[c.globals.len() as int] == root);
    }
}

/// A refused change leaves the configuration as it was; an accepted one keeps it
/// consistent (configured exactly when it has projects).
pub proof fn lemma_config_changes_keep_wf(c: ConfigView, root: Seq<char>)
    requires
        config_wf(c),
    ensures
        config_wf(add_project_spec(c, root).0),
        config_wf(remove_project_spec(c, root).0),
        config_wf(add_global_env_spec(c, root).0),
        config_wf(remove_global_env_spec(c, root).0),
        add_project_spec(c, root).1 is Err ==> add_project_spec(c, root).0 == c,
        remove_project_spec(c, root).1 is Err ==> remove_project_spec(c, root).0 == c,
        add_global_env_spec(c, root).1 is Err ==> add_global_env_spec(c, root).0 == c,
        remove_global_env_spec(c, root).1 is Err ==> remove_global_env_spec(c, root).0 == c,
{
    lemma_remove_all(c.projects, root);
}

/// Removing the only project folder unconfigures the workspace and keeps the global
/// folders.
pub proof fn lemma_remove_last_project(c: ConfigView, root: Seq<char>)
    requires
        c.configured,
        c.projects == seq![root],
    ensures
        remove_project_spec(c, root) == (
            ConfigView { configured: false, projects: Seq::empty(), globals: c.globals },
            Ok::<ProjectChangeOutcome, RootOpError>(ProjectChangeOutcome::RemovedLastProject),
        ),
{
    lemma_remove_all_push(Seq::<Seq<char>>::empty(), root);
    assert(Seq::<Seq<char>>::empty().push(root) =~= seq![root]);
}

/// Index of the project folder that holds `path`: among the folders it starts with, the one
/// with the most components, the last one on a tie.
pub fn project_root_for_file(path: &str, roots: &[ProjectRoot]) -> (r: Option<usize>)
    ensures
        match best_root_index(project_views(roots@), path@) {
            Some(i) => r matches Some(b) && b as int == i && b < roots@.len(),
            None => r is None,
        },
{
    let ghost pv = project_views(roots@);
    let mut best: Option<usize> = None;
    let mut best_count: usize = 0;
    let mut i: usize = 0;
    while i < roots.len()
        invariant
            i <= roots@.len(),
            pv == project_views(roots@),
            match best {
                Some(b) => best_root_index(pv.take(i as int), path@) == Some(b as int)
                    && b < i && best_count as nat == path_component_count(pv[b as int]),
                None => best_root_index(pv.take(i as int), path@) is None,
            },
        decreases roots.len() - i,
    {
        let ghost t = pv.take(i + 1);
        assert(t.drop_last() =~= pv.take(i as int));
        assert(t[i as int] == roots@[i as int]@);
        if path_has_prefix(path, roots[i].as_path()) {
            let count = component_count(roots[i].as_path());
            match best {
                None => {
                    best = Some(i);
                    best_count = count;
                },
                Some(b) => {
                    assert(t[b as int] == pv[b as int]);
                    if count >= best_count {
                        best = Some(i);
                        best_count = count;
                    }
                },
            }
        }
        i = i + 1;
    }
    assert(pv.take(roots@.len() as int) =~= pv);
    best
}

} // verus!
