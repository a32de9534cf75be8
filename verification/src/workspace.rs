//! What the workspace holds: the loaded `.http` files, their order in the sidebar, the
//! selected request and the environments found by the last scan.
use vstd::prelude::*;

use crate::domain::ProjectConfiguration;
use crate::env::{clone_environments, env_views, Environment, EnvironmentView};
use crate::model::{clone_request_id, opt_id_view, HttpFile, HttpFileView, RequestId, RequestIdView};
use crate::status::string_views;

verus! {

pub open spec fn file_views(v: Seq<HttpFile>) -> Seq<HttpFileView> {
    v.map_values(|f: HttpFile| f@)
}

/// The workspace as plain values.
#[verifier::ext_equal]
pub ghost struct WorkspaceView {
    pub configured: bool,
    pub files: Seq<HttpFileView>,
    pub order: Seq<Seq<char>>,
    pub selection: Option<RequestIdView>,
    pub envs: Seq<EnvironmentView>,
}

/// A workspace with nothing in it.
pub open spec fn empty_workspace(configured: bool) -> WorkspaceView {
    WorkspaceView {
        configured,
        files: Seq::empty(),
        order: Seq::empty(),
        selection: None,
        envs: Seq::empty(),
    }
}

/// The workspace after it has been made configured: unchanged when it already was.
pub open spec fn ensure_configured_spec(w: WorkspaceView) -> WorkspaceView {
    if w.configured {
        w
    } else {
        empty_workspace(true)
    }
}

/// What a workspace holds while no project is configured.
#[derive(Debug)]
pub struct UnconfiguredWorkspace {
    http_files: Vec<HttpFile>,
    http_file_order: Vec<String>,
    all_environments: Vec<Environment>,
}

impl View for UnconfiguredWorkspace {
    type V = WorkspaceView;

    closed spec fn view(&self) -> WorkspaceView {
        WorkspaceView {
            configured: false,
            files: file_views(self.http_files@),
            order: string_views(self.http_file_order@),
            selection: None,
            envs: env_views(self.all_environments@),
        }
    }
}

impl Default for UnconfiguredWorkspace {
    fn default() -> (r: Self)
        ensures
            r@ == empty_workspace(false),
    {
        let r = UnconfiguredWorkspace {
            http_files: Vec::new(),
            http_file_order: Vec::new(),
            all_environments: Vec::new(),
        };
        assert(r@ =~= empty_workspace(false));
        r
    }
}

/// What a workspace holds while projects are configured.
#[derive(Debug)]
pub struct ConfiguredWorkspace {
    pub http_files: Vec<HttpFile>,
    pub http_file_order: Vec<String>,
    pub selection: Option<RequestId>,
    pub all_environments: Vec<Environment>,
}

impl View for ConfiguredWorkspace {
    type V = WorkspaceView;

    open spec fn view(&self) -> WorkspaceView {
        WorkspaceView {
            configured: true,
            files: file_views(self.http_files@),
            order: string_views(self.http_file_order@),
            selection: opt_id_view(self.selection),
            envs: env_views(self.all_environments@),
        }
    }
}

impl Default for ConfiguredWorkspace {
    fn default() -> (r: Self)
        ensures
            r@ == empty_workspace(true),
    {
        let r = ConfiguredWorkspace {
            http_files: Vec::new(),
            http_file_order: Vec::new(),
            selection: None,
            all_environments: Vec::new(),
        };
        assert(r@ =~= empty_workspace(true));
        r
    }
}

#[derive(Debug)]
pub enum WorkspaceState {
    Unconfigured(UnconfiguredWorkspace),
    Configured(ConfiguredWorkspace),
}

impl View for WorkspaceState {
    type V = WorkspaceView;

    open spec fn view(&self) -> WorkspaceView {
        match self {
            WorkspaceState::Unconfigured(w) => w@,
            WorkspaceState::Configured(w) => w@,
        }
    }
}

pub open spec fn opt_ref_id_view(o: Option<&RequestId>) -> Option<RequestIdView> {
    match o {
        Some(x) => Some(x@),
        None => None,
    }
}

impl WorkspaceState {
    /// The workspace at start-up: configured with the saved order of files when projects
    /// are configured, empty otherwise.
    pub fn from_config(configuration: &ProjectConfiguration, saved_http_order: Vec<String>) -> (r: Self)
        ensures
            r@ == (if configuration@.configured {
                WorkspaceView { order: string_views(saved_http_order@), ..empty_workspace(true) }
            } else {
                empty_workspace(false)
            }),
    {
        if configuration.should_scan() {
            let r = WorkspaceState::Configured(
                ConfiguredWorkspace {
                    http_files: Vec::new(),
                    http_file_order: saved_http_order,
                    selection: None,
                    all_environments: Vec::new(),
                },
            );
            assert(r@ =~= WorkspaceView {
                order: string_views(saved_http_order@),
                ..empty_workspace(true)
            });
            r
        } else {
            WorkspaceState::Unconfigured(UnconfiguredWorkspace::default())
        }
    }

    /// Brings the workspace in line with the configuration: configured when projects are
    /// (keeping what it holds), emptied when they are not.
    pub fn sync_with_configuration(&mut self, configuration: &ProjectConfiguration)
        ensures
            final(self)@ == (if configuration@.configured {
                ensure_configured_spec(old(self)@)
            } else {
                empty_workspace(false)
            }),
    {
        if configuration.should_scan() {
            self.ensure_configured();
        } else {
            self.clear_for_unconfigured();
        }
    }

    /// Makes the workspace configured, empty if it was not, and hands out its contents.
    pub fn ensure_configured(&mut self) -> (r: &mut ConfiguredWorkspace)
        ensures
            (*r)@ == ensure_configured_spec(old(self)@),
            *final(self) == WorkspaceState::Configured(*final(r)),
    {
        if let WorkspaceState::Unconfigured(_) = self {
            *self = WorkspaceState::Configured(ConfiguredWorkspace::default());
        }
        match self {
            WorkspaceState::Configured(workspace) => workspace,
            WorkspaceState::Unconfigured(_) => vstd::pervasive::unreached(),
        }
    }

    /// The contents of a configured workspace.
    pub fn configured(&self) -> (r: Option<&ConfiguredWorkspace>)
        ensures
            match self {
                WorkspaceState::Configured(w) => r == Some(w),
                WorkspaceState::Unconfigured(_) => r is None,
            },
            r is Some <==> self@.configured,
            !self@.configured ==> self@.selection is None,
    {
        match self {
            WorkspaceState::Configured(workspace) => Some(workspace),
            WorkspaceState::Unconfigured(_) => None,
        }
    }

    /// The contents of a configured workspace, to change in place.
    pub fn configured_mut(&mut self) -> (r: Option<&mut ConfiguredWorkspace>)
        ensures
            match *old(self) {
                WorkspaceState::Configured(w) => r matches Some(x) && *x == w
                    && *final(self) == WorkspaceState::Configured(*final(x)),
                WorkspaceState::Unconfigured(_) => r is None && *final(self) == *old(self),
            },
            r is None <==> !old(self)@.configured,
    {
        match self {
            WorkspaceState::Configured(workspace) => Some(workspace),
            WorkspaceState::Unconfigured(_) => None,
        }
    }

    /// Drops everything and leaves the workspace unconfigured.
    pub fn clear_for_unconfigured(&mut self)
        ensures
            final(self)@ == empty_workspace(false),
    {
        *self = WorkspaceState::Unconfigured(UnconfiguredWorkspace::default());
    }

    pub fn http_files(&self) -> (r: &[HttpFile])
        ensures
            file_views(r@) == self@.files,
    {
        match self {
            WorkspaceState::Configured(workspace) => workspace.http_files.as_slice(),
            WorkspaceState::Unconfigured(workspace) => workspace.http_files.as_slice(),
        }
    }

    pub fn http_file_order(&self) -> (r: &[String])
        ensures
            string_views(r@) == self@.order,
    {
        match self {
            WorkspaceState::Configured(workspace) => workspace.http_file_order.as_slice(),
            WorkspaceState::Unconfigured(workspace) => workspace.http_file_order.as_slice(),
        }
    }

    /// The selected request; there is none while unconfigured.
    pub fn selection(&self) -> (r: Option<&RequestId>)
        ensures
            opt_ref_id_view(r) == self@.selection,
    {
        match self {
            WorkspaceState::Configured(workspace) => match &workspace.selection {
                Some(id) => Some(id),
                None => None,
            },
            WorkspaceState::Unconfigured(_) => None,
        }
    }

    pub fn selection_cloned(&self) -> (r: Option<RequestId>)
        ensures
            opt_id_view(r) == self@.selection,
    {
        match self {
            WorkspaceState::Configured(workspace) => clone_request_id(&workspace.selection),
            WorkspaceState::Unconfigured(_) => None,
        }
    }

    /// Selects a request; an unconfigured workspace ignores it.
    pub fn set_selection(&mut self, selection: Option<RequestId>)
        ensures
            final(self)@ == (if old(self)@.configured {
                WorkspaceView { selection: opt_id_view(selection), ..old(self)@ }
            } else {
                old(self)@
            }),
    {
        if let WorkspaceState::Configured(workspace) = self {
            workspace.selection = selection;
        }
    }

    pub fn clear_selection(&mut self)
        ensures
            final(self)@ == (WorkspaceView { selection: None, ..old(self)@ }),
    {
        self.set_selection(None);
    }

    pub fn all_environments(&self) -> (r: &[Environment])
        ensures
            env_views(r@) == self@.envs,
    {
        match self {
            WorkspaceState::Configured(workspace) => workspace.all_environments.as_slice(),
            WorkspaceState::Unconfigured(workspace) => workspace.all_environments.as_slice(),
        }
    }

    pub fn set_all_environments(&mut self, envs: Vec<Environment>)
        ensures
            final(self)@ == (WorkspaceView { envs: env_views(envs@), ..old(self)@ }),
    {
        match self {
            WorkspaceState::Configured(workspace) => workspace.all_environments = envs,
            WorkspaceState::Unconfigured(workspace) => {
                workspace.all_environments = envs;
                assert(workspace@ =~= WorkspaceView { envs: env_views(envs@), ..old(self)@ });
            },
        }
    }

    /// Forgets what the last scan found, and the selection.
    pub fn clear_scan_cache(&mut self)
        ensures
            final(self)@ == empty_workspace(old(self)@.configured),
    {
        match self {
            WorkspaceState::Configured(workspace) => {
                workspace.selection = None;
                workspace.http_files.clear();
                workspace.http_file_order.clear();
                workspace.all_environments.clear();
                assert(workspace@ =~= empty_workspace(true));
            },
            WorkspaceState::Unconfigured(workspace) => {
                workspace.http_files.clear();
                workspace.http_file_order.clear();
                workspace.all_environments.clear();
                assert(workspace@ =~= empty_workspace(false));
            },
        }
    }
}


// ---------------------------------------------------------------------------
// Files found by a scan
// ---------------------------------------------------------------------------

pub open spec fn file_paths(files: Seq<HttpFileView>) -> Seq<Seq<char>> {
    files.map_values(|f: HttpFileView| f.path)
}

/// No two files share a path (the files of a scan are keyed by path).
pub open spec fn paths_unique(files: Seq<HttpFileView>) -> bool {
    forall|i: int, j: int| 0 <= i < j < files.len() ==> files[i].path != files[j].path
}

/// The entries of `order` that `keep` holds, in their order.
pub open spec fn retain_in(order: Seq<Seq<char>>, keep: Seq<Seq<char>>) -> Seq<Seq<char>>
    decreases order.len(),
{
    if order.len() == 0 {
        order
    } else {
        retain_in(order.drop_last(), keep) + (if keep.contains(order.last()) {
            seq![order.last()]
        } else {
            Seq::empty()
        })
    }
}

/// Whether a file at `path` holds a request at `index`.
pub open spec fn request_exists(files: Seq<HttpFileView>, path: Seq<char>, index: int) -> bool {
    exists|i: int| 0 <= i < files.len() && files[i].path == path && index < files[i].requests.len()
}

/// The selection kept once `files` are loaded: a request of an `.http` file that is gone
/// is dropped.
pub open spec fn selection_after_load(sel: Option<RequestIdView>, files: Seq<HttpFileView>) -> Option<RequestIdView> {
    match sel {
        Some(RequestIdView::HttpFile { path, index }) => if request_exists(files, path, index as int) {
            sel
        } else {
            None
        },
        _ => sel,
    }
}

/// The order after a scan: the known files that are still there, in their order, then the
/// new ones in ascending order of path.
pub open spec fn order_after_load(order: Seq<Seq<char>>, files: Seq<HttpFileView>, result: Seq<Seq<char>>) -> bool {
    let kept = retain_in(order, file_paths(files));
    let added = result.skip(kept.len() as int);
    &&& result.len() >= kept.len()
    &&& result.take(kept.len() as int) == kept
    &&& crate::status::strictly_sorted(added)
    &&& added.to_set() == file_paths(files).to_set().difference(kept.to_set())
}

/// Index of the file at `path`, if one is loaded.
pub fn find_file(files: &[HttpFile], path: &str) -> (r: Option<usize>)
    ensures
        match r {
            Some(i) => i < files@.len() && files@[i as int]@.path == path@
                && i as int == first_index(file_paths(file_views(files@)), path@),
            None => !file_paths(file_views(files@)).contains(path@)
                && first_index(file_paths(file_views(files@)), path@) == -1,
        },
{
    let ghost ps = file_paths(file_views(files@));
    proof {
        lemma_first_index(ps, path@);
    }
    let mut i: usize = 0;
    while i < files.len()
        invariant
            i <= files@.len(),
            ps == file_paths(file_views(files@)),
            forall|j: int| 0 <= j < i ==> files@[j]@.path != path@,
            -1 <= first_index(ps, path@) < ps.len(),
            first_index(ps, path@) >= 0 ==> ps[first_index(ps, path@)] == path@,
            forall|j: int| 0 <= j < first_index(ps, path@) ==> ps[j] != path@,
            first_index(ps, path@) < 0 ==> forall|j: int| 0 <= j < ps.len() ==> ps[j] != path@,
        decreases files.len() - i,
    {
        if crate::text::str_eq(files[i].path.as_str(), path) {
            assert(ps[i as int] == path@);
            return Some(i);
        }
        i = i + 1;
    }
    proof {
        if first_index(ps, path@) >= 0 {
            assert(files@[first_index(ps, path@)]@.path == path@);
        }
    }
    proof {
        if file_paths(file_views(files@)).contains(path@) {
            let k = choose|k: int| 0 <= k < files@.len() && file_paths(file_views(files@))[k] == path@;
            assert(files@[k]@.path == path@);
        }
    }
    None
}

/// Whether `v` holds `x`.
fn contains_path(v: &[String], x: &str) -> (r: bool)
    ensures
        r == string_views(v@).contains(x@),
{
    let mut i: usize = 0;
    while i < v.len()
        invariant
            i <= v@.len(),
            forall|j: int| 0 <= j < i ==> v@[j]@ != x@,
        decreases v.len() - i,
    {
        if crate::text::str_eq(v[i].as_str(), x) {
            assert(string_views(v@)[i as int] == x@);
            return true;
        }
        i = i + 1;
    }
    proof {
        if string_views(v@).contains(x@) {
            let k = choose|k: int| 0 <= k < v@.len() && string_views(v@)[k] == x@;
            assert(v@[k]@ == x@);
        }
    }
    false
}

/// The paths of a list of files.
fn paths_of(files: &[HttpFile]) -> (r: Vec<String>)
    ensures
        string_views(r@) == file_paths(file_views(files@)),
{
    let mut r: Vec<String> = Vec::new();
    let mut i: usize = 0;
    while i < files.len()
        invariant
            i <= files@.len(),
            r@.len() == i,
            string_views(r@) == file_paths(file_views(files@)).take(i as int),
        decreases files.len() - i,
    {
        let p = files[i].path.clone();
        r.push(p);
        i = i + 1;
        assert(string_views(r@) =~= file_paths(file_views(files@)).take(i as int));
    }
    assert(file_paths(file_views(files@)).take(files@.len() as int) =~= file_paths(file_views(files@)));
    r
}

/// Whether the request `id` names is held by one of `files`.
fn selection_still_valid(files: &[HttpFile], id: &RequestId) -> (r: bool)
    requires
        paths_unique(file_views(files@)),
    ensures
        r == (selection_after_load(Some(id@), file_views(files@)) == Some(id@)),
{
    match id {
        RequestId::HttpFile { path, index } => match find_file(files, path.as_str()) {
            Some(i) => {
                let ok = *index < files[i].requests.len();
                proof {
                    let fv = file_views(files@);
                    if !ok && request_exists(fv, path@, *index as int) {
                        let k = choose|k: int| 0 <= k < fv.len() && fv[k].path == path@ && *index < fv[k].requests.len();
                        if k != i {
                            if k < i {
                                assert(fv[k].path != fv[i as int].path);
                            } else {
                                assert(fv[i as int].path != fv[k].path);
                            }
                        }
                    }
                    if ok {
                        assert(fv[i as int].path == path@);
                    }
                }
                ok
            },
            None => {
                proof {
                    let fv = file_views(files@);
                    if request_exists(fv, path@, *index as int) {
                        let k = choose|k: int| 0 <= k < fv.len() && fv[k].path == path@ && *index < fv[k].requests.len();
                        assert(file_paths(fv)[k] == path@);
                    }
                }
                false
            },
        },
        _ => true,
    }
}

impl ConfiguredWorkspace {
    /// Takes in the files a scan found: the order keeps the known files that are still
    /// there and appends the new ones sorted by path, and a selected request that is gone
    /// is dropped.
    pub fn load_http_files(&mut self, files: Vec<HttpFile>)
        requires
            paths_unique(file_views(files@)),
        ensures
            final(self)@.files == file_views(files@),
            order_after_load(old(self)@.order, file_views(files@), final(self)@.order),
            final(self)@.selection == selection_after_load(old(self)@.selection, file_views(files@)),
            final(self)@.envs == old(self)@.envs,
    {
        let ghost fv = file_views(files@);
        let paths = paths_of(files.as_slice());
        let ghost keep = string_views(paths@);
        let ghost old_order = string_views(self.http_file_order@);
        let mut kept: Vec<String> = Vec::new();
        let mut i: usize = 0;
        while i < self.http_file_order.len()
            invariant
                i <= old_order.len(),
                old_order == string_views(self.http_file_order@),
                keep == file_paths(fv),
                keep == string_views(paths@),
                string_views(kept@) == retain_in(old_order.take(i as int), keep),
            decreases self.http_file_order.len() - i,
        {
            let ghost t = old_order.take(i + 1);
            assert(t.drop_last() =~= old_order.take(i as int));
            assert(t.last() == self.http_file_order@[i as int]@);
            if contains_path(paths.as_slice(), self.http_file_order[i].as_str()) {
                let p = self.http_file_order[i].clone();
                let ghost before = string_views(kept@);
                kept.push(p);
                assert(string_views(kept@) =~= before + seq![p@]);
            } else {
                assert(retain_in(t, keep) =~= retain_in(old_order.take(i as int), keep));
            }
            i = i + 1;
        }
        assert(old_order.take(old_order.len() as int) =~= old_order);
        let ghost kv = string_views(kept@);
        let mut added: Vec<Vec<char>> = Vec::new();
        let mut j: usize = 0;
        while j < paths.len()
            invariant
                j <= keep.len(),
                keep == string_views(paths@),
                kv == string_views(kept@),
                crate::status::strictly_sorted(crate::text::views(added@)),
                crate::text::views(added@).to_set() == keep.take(j as int).to_set().difference(kv.to_set()),
            decreases paths.len() - j,
        {
            proof {
                assert(keep.take(j + 1) =~= keep.take(j as int).push(keep[j as int]));
                keep.take(j as int).lemma_push_to_set_commute(keep[j as int]);
            }
            if !contains_path(kept.as_slice(), paths[j].as_str()) {
                crate::status::insert_sorted_unique(&mut added, crate::text::chars_of(paths[j].as_str()));
                assert(crate::text::views(added@).to_set() =~= keep.take(j + 1).to_set().difference(kv.to_set()));
            } else {
                assert(crate::text::views(added@).to_set() =~= keep.take(j + 1).to_set().difference(kv.to_set()));
            }
            j = j + 1;
        }
        assert(keep.take(keep.len() as int) =~= keep);
        let mut order = kept;
        let mut k: usize = 0;
        while k < added.len()
            invariant
                k <= added@.len(),
                string_views(order@) == kv + crate::text::views(added@).take(k as int),
            decreases added.len() - k,
        {
            let s = crate::text::string_of(added[k].as_slice());
            let ghost before = string_views(order@);
            order.push(s);
            assert(string_views(order@) =~= before.push(s@));
            assert(crate::text::views(added@).take(k + 1) =~= crate::text::views(added@).take(k as int).push(added@[k as int]@));
            k = k + 1;
        }
        assert(crate::text::views(added@).take(added@.len() as int) =~= crate::text::views(added@));
        let ghost ov = string_views(order@);
        assert(ov.take(kv.len() as int) =~= kv);
        assert(ov.skip(kv.len() as int) =~= crate::text::views(added@));
        let keep_selection = match &self.selection {
            Some(id) => selection_still_valid(files.as_slice(), id),
            None => true,
        };
        if !keep_selection {
            self.selection = None;
        }
        self.http_files = files;
        self.http_file_order = order;
    }
}


// ---------------------------------------------------------------------------
// Reordering
// ---------------------------------------------------------------------------

/// Index of the first occurrence of `x` in `s`, or -1.
pub open spec fn first_index(s: Seq<Seq<char>>, x: Seq<char>) -> int
    decreases s.len(),
{
    if s.len() == 0 {
        -1
    } else if s[0] == x {
        0
    } else {
        let r = first_index(s.drop_first(), x);
        if r < 0 {
            -1
        } else {
            r + 1
        }
    }
}

pub proof fn lemma_first_index(s: Seq<Seq<char>>, x: Seq<char>)
    ensures
        -1 <= first_index(s, x) < s.len(),
        first_index(s, x) >= 0 ==> s[first_index(s, x)] == x,
        forall|j: int| 0 <= j < first_index(s, x) ==> s[j] != x,
        first_index(s, x) < 0 ==> forall|j: int| 0 <= j < s.len() ==> s[j] != x,
    decreases s.len(),
{
    if s.len() > 0 && s[0] != x {
        lemma_first_index(s.drop_first(), x);
        assert forall|j: int| 0 < j < s.len() implies s[j] == s.drop_first()[j - 1] by {}
    }
}

/// `s` with the entries at `a` and `b` exchanged.
pub open spec fn swap_at<A>(s: Seq<A>, a: int, b: int) -> Seq<A> {
    s.update(a, s[b]).update(b, s[a])
}

/// The order after moving the file at `path` one place up.
pub open spec fn move_up_spec(order: Seq<Seq<char>>, path: Seq<char>) -> Seq<Seq<char>> {
    let p = first_index(order, path);
    if p > 0 {
        swap_at(order, p, p - 1)
    } else {
        order
    }
}

/// The order after moving the file at `path` one place down.
pub open spec fn move_down_spec(order: Seq<Seq<char>>, path: Seq<char>) -> Seq<Seq<char>> {
    let p = first_index(order, path);
    if 0 <= p && p + 1 < order.len() {
        swap_at(order, p, p + 1)
    } else {
        order
    }
}

/// Position of `path` in a list of paths, as `first_index` gives it.
fn position_of(v: &[String], path: &str) -> (r: Option<usize>)
    ensures
        match r {
            Some(i) => i as int == first_index(string_views(v@), path@) && i < v@.len(),
            None => first_index(string_views(v@), path@) < 0,
        },
{
    proof {
        lemma_first_index(string_views(v@), path@);
    }
    let mut i: usize = 0;
    while i < v.len()
        invariant
            i <= v@.len(),
            forall|j: int| 0 <= j < i ==> v@[j]@ != path@,
            -1 <= first_index(string_views(v@), path@) < v@.len(),
            first_index(string_views(v@), path@) >= 0 ==> string_views(v@)[first_index(string_views(v@), path@)] == path@,
            forall|j: int| 0 <= j < first_index(string_views(v@), path@) ==> string_views(v@)[j] != path@,
            first_index(string_views(v@), path@) < 0 ==> forall|j: int| 0 <= j < v@.len() ==> string_views(v@)[j] != path@,
        decreases v.len() - i,
    {
        if crate::text::str_eq(v[i].as_str(), path) {
            assert(string_views(v@)[i as int] == path@);
            return Some(i);
        }
        i = i + 1;
    }
    None
}

/// Exchanges two entries of a list of paths.
fn swap_paths(v: &mut Vec<String>, a: usize, b: usize)
    requires
        a < old(v)@.len(),
        b < old(v)@.len(),
    ensures
        string_views(final(v)@) == swap_at(string_views(old(v)@), a as int, b as int),
{
    let ghost before = v@;
    let x = v[a].clone();
    let y = v[b].clone();
    v.set(a, y);
    v.set(b, x);
    assert(string_views(v@) =~= swap_at(string_views(before), a as int, b as int));
}

impl WorkspaceState {
    /// Moves the file at `path` one place up in the sidebar order; nothing happens while
    /// unconfigured, or when it is first or not listed.
    pub fn move_collection_up(&mut self, path: &str)
        ensures
            final(self)@ == (if old(self)@.configured {
                WorkspaceView { order: move_up_spec(old(self)@.order, path@), ..old(self)@ }
            } else {
                old(self)@
            }),
    {
        if let WorkspaceState::Configured(workspace) = self {
            match position_of(workspace.http_file_order.as_slice(), path) {
                Some(pos) => {
                    if pos > 0 {
                        swap_paths(&mut workspace.http_file_order, pos, pos - 1);
                    }
                },
                None => {},
            }
        }
    }

    /// Moves the file at `path` one place down in the sidebar order; nothing happens while
    /// unconfigured, or when it is last or not listed.
    pub fn move_collection_down(&mut self, path: &str)
        ensures
            final(self)@ == (if old(self)@.configured {
                WorkspaceView { order: move_down_spec(old(self)@.order, path@), ..old(self)@ }
            } else {
                old(self)@
            }),
    {
        if let WorkspaceState::Configured(workspace) = self {
            match position_of(workspace.http_file_order.as_slice(), path) {
                Some(pos) => {
                    let n = workspace.http_file_order.len();
                    if pos + 1 < n {
                        swap_paths(&mut workspace.http_file_order, pos, pos + 1);
                    }
                },
                None => {},
            }
        }
    }
}

/// Moving a file up and then down gives back the order it had, when it could move up.
pub proof fn lemma_move_up_then_down(order: Seq<Seq<char>>, path: Seq<char>)
    requires
        first_index(order, path) > 0,
    ensures
        move_down_spec(move_up_spec(order, path), path) == order,
{
    lemma_first_index(order, path);
    let p = first_index(order, path);
    let up = swap_at(order, p, p - 1);
    lemma_first_index(up, path);
    assert(up[p - 1] == path);
    let q = first_index(up, path);
    assert(q == p - 1) by {
        if q < p - 1 {
            assert(up[q] == order[q]);
        }
    }
    assert(swap_at(up, p - 1, p) =~= order);
}

/// The selection after two requests of a file exchange places: a selection on one of them
/// follows it.
pub open spec fn swap_selection_spec(sel: Option<RequestIdView>, path: Seq<char>, a: usize, b: usize) -> Option<RequestIdView> {
    match sel {
        Some(RequestIdView::HttpFile { path: p, index }) => if p == path {
            if index == a {
                Some(RequestIdView::HttpFile { path: p, index: b })
            } else if index == b {
                Some(RequestIdView::HttpFile { path: p, index: a })
            } else {
                sel
            }
        } else {
            sel
        },
        _ => sel,
    }
}

/// Keeps a selected request selected after it has exchanged places with another.
pub fn swap_request_indices_in_selection_http(selection: &mut Option<RequestId>, path: &str, a: usize, b: usize)
    ensures
        opt_id_view(*final(selection)) == swap_selection_spec(opt_id_view(*old(selection)), path@, a, b),
{
    if let Some(RequestId::HttpFile { path: sel_path, index }) = selection {
        if crate::text::str_eq(sel_path.as_str(), path) {
            if *index == a {
                *index = b;
            } else if *index == b {
                *index = a;
            }
        }
    }
}

/// Exchanging the same two places twice leaves the selection as it was.
pub proof fn lemma_swap_selection_involution(sel: Option<RequestIdView>, path: Seq<char>, a: usize, b: usize)
    ensures
        swap_selection_spec(swap_selection_spec(sel, path, a, b), path, a, b) == sel,
{
}

} // verus!
