//! The record of the workbench that an automation run leaves when it ends: plain values
//! that the application writes out as JSON.
use vstd::prelude::*;

use crate::automation::SnapshotOutcome;
use crate::domain::{global_views, project_views};
use crate::editor::HeaderRow;
use crate::env::{entry_views, env_views, lex_lt, EnvVars, Environment, EnvironmentView};
use crate::model::{method_name, DraftView, HttpFile, HttpFileView, RequestDraft, RequestId, RequestIdView};
use crate::options::RequestMode;
use crate::response::{ResponseDisplay, ResponseTab};
use crate::runner::{AutomationRuntime, RuntimeView};
use crate::status::string_views;
use crate::workbench::{ResponseView, Workbench, WorkbenchView};
use crate::workspace::{file_paths, file_views, first_index, find_file, WorkspaceView};

verus! {

// ---------------------------------------------------------------------------
// The order of the recorded files
// ---------------------------------------------------------------------------

/// The paths of `files` that `order` does not list, in the files' order.
pub open spec fn unlisted_paths(files: Seq<HttpFileView>, order: Seq<Seq<char>>) -> Seq<Seq<char>>
    decreases files.len(),
{
    if files.len() == 0 {
        Seq::empty()
    } else {
        let prev = unlisted_paths(files.drop_last(), order);
        if order.contains(files.last().path) {
            prev
        } else {
            prev.push(files.last().path)
        }
    }
}

/// `paths` with `p` put after every path that does not sort after it.
pub open spec fn insert_path(paths: Seq<Seq<char>>, p: Seq<char>) -> Seq<Seq<char>>
    decreases paths.len(),
{
    if paths.len() == 0 {
        seq![p]
    } else if lex_lt(p, paths.last()) {
        insert_path(paths.drop_last(), p).push(paths.last())
    } else {
        paths.push(p)
    }
}

/// The paths in ascending order.
pub open spec fn sort_paths(paths: Seq<Seq<char>>) -> Seq<Seq<char>>
    decreases paths.len(),
{
    if paths.len() == 0 {
        paths
    } else {
        insert_path(sort_paths(paths.drop_last()), paths.last())
    }
}

/// The paths a snapshot records files under: the workspace's order, then the other files'
/// paths in ascending order.
pub open spec fn snapshot_paths(ws: WorkspaceView) -> Seq<Seq<char>> {
    ws.order + sort_paths(unlisted_paths(ws.files, ws.order))
}

/// Paths in ascending order, equal ones next to each other.
pub open spec fn paths_sorted(s: Seq<Seq<char>>) -> bool {
    forall|i: int, j: int| 0 <= i < j < s.len() ==> crate::env::lex_le(#[trigger] s[i], #[trigger] s[j])
}

proof fn lemma_insert_path_sorted(s: Seq<Seq<char>>, p: Seq<char>)
    requires
        paths_sorted(s),
    ensures
        paths_sorted(insert_path(s, p)),
        insert_path(s, p).to_multiset() == s.to_multiset().insert(p),
    decreases s.len(),
{
    broadcast use vstd::seq_lib::group_to_multiset_ensures;
    broadcast use vstd::multiset::group_multiset_axioms;

    if s.len() == 0 {
        assert(insert_path(s, p) == seq![p]);
        assert(seq![p] =~= Seq::<Seq<char>>::empty().push(p));
        assert(s =~= Seq::<Seq<char>>::empty());
    } else if lex_lt(p, s.last()) {
        let d = s.drop_last();
        assert forall|i: int, j: int| 0 <= i < j < d.len() implies crate::env::lex_le(#[trigger] d[i], #[trigger] d[j]) by {
            assert(d[i] == s[i] && d[j] == s[j]);
        }
        lemma_insert_path_sorted(d, p);
        let r = insert_path(d, p);
        assert(s =~= d.push(s.last()));
        assert forall|k: int| 0 <= k < r.len() implies crate::env::lex_le(#[trigger] r[k], s.last()) by {
            assert(r.to_multiset().contains(r[k]));
            assert(d.to_multiset().insert(p).contains(r[k]));
            if r[k] == p {
                crate::env::lemma_lex_lt_le(p, s.last());
            } else {
                assert(d.to_multiset().contains(r[k]));
                assert(d.contains(r[k]));
                let m = choose|m: int| 0 <= m < d.len() && d[m] == r[k];
                assert(s[m] == d[m]);
                assert(crate::env::lex_le(s[m], s[s.len() - 1]));
            }
        }
        let out = r.push(s.last());
        assert forall|i: int, j: int| 0 <= i < j < out.len() implies crate::env::lex_le(#[trigger] out[i], #[trigger] out[j]) by {
            if j < r.len() {
                assert(out[i] == r[i] && out[j] == r[j]);
            } else {
                assert(out[i] == r[i]);
            }
        }
    } else {
        let out = s.push(p);
        crate::env::lemma_lex_not_lt_le(p, s.last());
        assert forall|i: int, j: int| 0 <= i < j < out.len() implies crate::env::lex_le(#[trigger] out[i], #[trigger] out[j]) by {
            if j < s.len() {
                assert(out[i] == s[i] && out[j] == s[j]);
            } else {
                assert(out[i] == s[i]);
                if i < s.len() - 1 {
                    assert(crate::env::lex_le(s[i], s[s.len() - 1]));
                    crate::env::lemma_lex_le_transitive(s[i], s[s.len() - 1], p);
                }
            }
        }
    }
}

/// The order a snapshot records the unlisted files in is ascending, and holds each path
/// as often as it came.
pub proof fn lemma_sort_paths(s: Seq<Seq<char>>)
    ensures
        paths_sorted(sort_paths(s)),
        sort_paths(s).to_multiset() == s.to_multiset(),
    decreases s.len(),
{
    broadcast use vstd::seq_lib::group_to_multiset_ensures;

    if s.len() > 0 {
        lemma_sort_paths(s.drop_last());
        lemma_insert_path_sorted(sort_paths(s.drop_last()), s.last());
        assert(s =~= s.drop_last().push(s.last()));
    } else {
        assert(s.to_multiset() =~= sort_paths(s).to_multiset());
    }
}

fn order_lists(order: &[String], p: &str) -> (r: bool)
    ensures
        r == string_views(order@).contains(p@),
{
    let mut i: usize = 0;
    while i < order.len()
        invariant
            i <= order@.len(),
            forall|j: int| 0 <= j < i ==> string_views(order@)[j] != p@,
        decreases order.len() - i,
    {
        if crate::text::str_eq(order[i].as_str(), p) {
            assert(string_views(order@)[i as int] == p@);
            return true;
        }
        i = i + 1;
    }
    false
}

fn unlisted(files: &[HttpFile], order: &[String]) -> (r: Vec<String>)
    ensures
        string_views(r@) == unlisted_paths(file_views(files@), string_views(order@)),
{
    let ghost fv = file_views(files@);
    let ghost ov = string_views(order@);
    let mut r: Vec<String> = Vec::new();
    let mut i: usize = 0;
    assert(fv.take(0) =~= Seq::<HttpFileView>::empty());
    assert(string_views(r@) =~= Seq::<Seq<char>>::empty());
    while i < files.len()
        invariant
            i <= files@.len(),
            fv == file_views(files@),
            ov == string_views(order@),
            string_views(r@) == unlisted_paths(fv.take(i as int), ov),
        decreases files.len() - i,
    {
        assert(fv.take(i + 1).drop_last() =~= fv.take(i as int));
        assert(fv.take(i + 1).last() == files@[i as int]@);
        if !order_lists(order, files[i].path.as_str()) {
            let ghost prev = string_views(r@);
            r.push(files[i].path.clone());
            assert(string_views(r@) =~= prev.push(files@[i as int].path@));
        }
        i = i + 1;
    }
    assert(fv.take(files@.len() as int) =~= fv);
    r
}

fn insert_path_into(out: &mut Vec<String>, p: String)
    ensures
        string_views(final(out)@) == insert_path(string_views(old(out)@), p@),
{
    let ghost s = string_views(out@);
    let pc = crate::text::chars_of(p.as_str());
    let mut k: usize = out.len();
    assert(s.take(k as int) =~= s);
    assert(s.skip(k as int) =~= Seq::<Seq<char>>::empty());
    while k > 0 && crate::env::lex_less(&pc, &crate::text::chars_of(out[k - 1].as_str()))
        invariant
            k <= s.len(),
            s == string_views(out@),
            pc@ == p@,
            insert_path(s, p@) == insert_path(s.take(k as int), p@) + s.skip(k as int),
        decreases k,
    {
        let ghost t = s.take(k as int);
        assert(t.last() == s[k - 1]);
        assert(t.drop_last() =~= s.take(k - 1));
        assert(s.skip(k - 1) =~= seq![s[k - 1]] + s.skip(k as int));
        k = k - 1;
    }
    let ghost t = s.take(k as int);
    if k > 0 {
        assert(t.last() == s[k - 1]);
    }
    let ghost pv = p@;
    out.insert(k, p);
    assert(string_views(out@) =~= insert_path(s, pv));
}

fn sorted_paths(paths: Vec<String>) -> (r: Vec<String>)
    ensures
        string_views(r@) == sort_paths(string_views(paths@)),
{
    let ghost pv = string_views(paths@);
    let mut r: Vec<String> = Vec::new();
    let mut i: usize = 0;
    assert(pv.take(0) =~= Seq::<Seq<char>>::empty());
    assert(string_views(r@) =~= Seq::<Seq<char>>::empty());
    while i < paths.len()
        invariant
            i <= paths@.len(),
            pv == string_views(paths@),
            string_views(r@) == sort_paths(pv.take(i as int)),
        decreases paths.len() - i,
    {
        assert(pv.take(i + 1).drop_last() =~= pv.take(i as int));
        assert(pv.take(i + 1).last() == paths@[i as int]@);
        insert_path_into(&mut r, paths[i].clone());
        i = i + 1;
    }
    assert(pv.take(paths@.len() as int) =~= pv);
    r
}

// ---------------------------------------------------------------------------
// The recorded values
// ---------------------------------------------------------------------------

/// A request draft as a snapshot records it.
#[derive(Debug)]
pub struct RequestDraftSnapshot {
    pub title: String,
    pub method: String,
    pub url: String,
    pub headers: String,
    pub body: String,
}

/// A recorded draft as plain values: title, method, URL, headers, body.
pub open spec fn draft_record(d: RequestDraftSnapshot) -> (Seq<char>, Seq<char>, Seq<char>, Seq<char>, Seq<char>) {
    (d.title@, d.method@, d.url@, d.headers@, d.body@)
}

/// What a snapshot records of a draft.
pub open spec fn draft_record_spec(d: DraftView) -> (Seq<char>, Seq<char>, Seq<char>, Seq<char>, Seq<char>) {
    (d.title, method_name(d.method), d.url, d.headers, d.body)
}

pub open spec fn draft_records(v: Seq<RequestDraftSnapshot>) -> Seq<(Seq<char>, Seq<char>, Seq<char>, Seq<char>, Seq<char>)> {
    v.map_values(|d: RequestDraftSnapshot| draft_record(d))
}

/// Records a draft.
pub fn snapshot_request_draft(draft: &RequestDraft) -> (r: RequestDraftSnapshot)
    ensures
        draft_record(r) == draft_record_spec(draft@),
{
    RequestDraftSnapshot {
        title: draft.title.clone(),
        method: String::from_str(draft.method.as_str()),
        url: draft.url.clone(),
        headers: draft.headers.clone(),
        body: draft.body.clone(),
    }
}

/// A file of requests as a snapshot records it.
#[derive(Debug)]
pub struct HttpFileSnapshot {
    pub path: String,
    pub requests: Vec<RequestDraftSnapshot>,
}

pub open spec fn file_record(f: HttpFileSnapshot) -> (Seq<char>, Seq<(Seq<char>, Seq<char>, Seq<char>, Seq<char>, Seq<char>)>) {
    (f.path@, draft_records(f.requests@))
}

pub open spec fn file_records(v: Seq<HttpFileSnapshot>) -> Seq<(Seq<char>, Seq<(Seq<char>, Seq<char>, Seq<char>, Seq<char>, Seq<char>)>)> {
    v.map_values(|f: HttpFileSnapshot| file_record(f))
}

/// What a snapshot records of drafts.
pub open spec fn draft_records_spec(v: Seq<DraftView>) -> Seq<(Seq<char>, Seq<char>, Seq<char>, Seq<char>, Seq<char>)> {
    v.map_values(|d: DraftView| draft_record_spec(d))
}

/// What a snapshot records of a file.
pub open spec fn file_record_spec(f: HttpFileView) -> (Seq<char>, Seq<(Seq<char>, Seq<char>, Seq<char>, Seq<char>, Seq<char>)>) {
    (f.path, draft_records_spec(f.requests))
}

/// The files recorded under `paths`: for each path that names a loaded file, that file.
pub open spec fn collections_spec(files: Seq<HttpFileView>, paths: Seq<Seq<char>>) -> Seq<
    (Seq<char>, Seq<(Seq<char>, Seq<char>, Seq<char>, Seq<char>, Seq<char>)>),
>
    decreases paths.len(),
{
    if paths.len() == 0 {
        Seq::empty()
    } else {
        let prev = collections_spec(files, paths.drop_last());
        let i = first_index(file_paths(files), paths.last());
        if 0 <= i {
            prev.push(file_record_spec(files[i]))
        } else {
            prev
        }
    }
}

fn snapshot_file(f: &HttpFile) -> (r: HttpFileSnapshot)
    ensures
        file_record(r) == file_record_spec(f@),
{
    let mut requests: Vec<RequestDraftSnapshot> = Vec::new();
    let ghost dv = f@.requests;
    let mut i: usize = 0;
    while i < f.requests.len()
        invariant
            i <= f.requests@.len(),
            dv == f@.requests,
            draft_records(requests@) == draft_records_spec(dv.take(i as int)),
        decreases f.requests.len() - i,
    {
        let d = snapshot_request_draft(&f.requests[i]);
        let ghost prev = draft_records(requests@);
        requests.push(d);
        assert(dv[i as int] == f.requests@[i as int]@);
        assert(draft_records(requests@) =~= prev.push(draft_record_spec(dv[i as int])));
        assert(draft_records_spec(dv.take(i + 1)) =~= draft_records_spec(dv.take(i as int)).push(
            draft_record_spec(dv[i as int]),
        ));
        i = i + 1;
    }
    assert(dv.take(f.requests@.len() as int) =~= dv);
    HttpFileSnapshot { path: f.path.clone(), requests }
}

fn collect_files(files: &[HttpFile], paths: &[String]) -> (r: Vec<HttpFileSnapshot>)
    ensures
        file_records(r@) == collections_spec(file_views(files@), string_views(paths@)),
{
    let ghost fv = file_views(files@);
    let ghost pv = string_views(paths@);
    let mut r: Vec<HttpFileSnapshot> = Vec::new();
    let mut i: usize = 0;
    assert(pv.take(0) =~= Seq::<Seq<char>>::empty());
    assert(file_records(r@) =~= collections_spec(fv, pv.take(0)));
    while i < paths.len()
        invariant
            i <= paths@.len(),
            fv == file_views(files@),
            pv == string_views(paths@),
            file_records(r@) == collections_spec(fv, pv.take(i as int)),
        decreases paths.len() - i,
    {
        assert(pv.take(i + 1).drop_last() =~= pv.take(i as int));
        assert(pv.take(i + 1).last() == paths@[i as int]@);
        match find_file(files, paths[i].as_str()) {
            Some(k) => {
                let s = snapshot_file(&files[k]);
                let ghost prev = file_records(r@);
                r.push(s);
                assert(fv[k as int] == files@[k as int]@);
                assert(file_records(r@) =~= prev.push(file_record_spec(fv[k as int])));
            },
            None => {},
        }
        i = i + 1;
    }
    assert(pv.take(paths@.len() as int) =~= pv);
    r
}

/// The files a snapshot records, in the order it records them.
pub fn snapshot_collections(files: &[HttpFile], order: &[String]) -> (r: Vec<HttpFileSnapshot>)
    ensures
        file_records(r@) == collections_spec(
            file_views(files@),
            string_views(order@) + sort_paths(unlisted_paths(file_views(files@), string_views(order@))),
        ),
{
    let extra = sorted_paths(unlisted(files, order));
    let mut all: Vec<String> = Vec::new();
    let mut i: usize = 0;
    while i < order.len()
        invariant
            i <= order@.len(),
            string_views(all@) == string_views(order@).take(i as int),
        decreases order.len() - i,
    {
        let ghost prev = string_views(all@);
        all.push(order[i].clone());
        assert(string_views(all@) =~= string_views(order@).take(i + 1)) by {
            assert(string_views(order@).take(i + 1) =~= prev.push(order@[i as int]@));
        }
        i = i + 1;
    }
    let mut j: usize = 0;
    assert(string_views(order@).take(order@.len() as int) =~= string_views(order@));
    let ghost base = string_views(all@);
    while j < extra.len()
        invariant
            j <= extra@.len(),
            string_views(all@) == base + string_views(extra@).take(j as int),
        decreases extra.len() - j,
    {
        let ghost prev = string_views(all@);
        all.push(extra[j].clone());
        assert(string_views(all@) =~= prev.push(extra@[j as int]@));
        assert(string_views(extra@).take(j + 1) =~= string_views(extra@).take(j as int).push(extra@[j as int]@));
        assert(base + string_views(extra@).take(j + 1) =~= (base + string_views(extra@).take(j as int)).push(
            extra@[j as int]@,
        ));
        j = j + 1;
    }
    assert(string_views(extra@).take(extra@.len() as int) =~= string_views(extra@));
    collect_files(files, all.as_slice())
}

/// How far the run got.
#[derive(Debug)]
pub struct SnapshotProgress {
    pub current_step: usize,
    pub total_steps: usize,
    pub done: bool,
}

/// The selected request.
#[derive(Debug)]
pub struct SelectedRequestSnapshot {
    pub path: String,
    pub index: usize,
}

/// A row of the header editor.
#[derive(Debug)]
pub struct HeaderRowSnapshot {
    pub name: String,
    pub value: String,
}

/// An environment offered in the window.
#[derive(Debug)]
pub struct EnvironmentSnapshot {
    pub name: String,
    pub vars: EnvVars,
}

/// The response shown.
#[derive(Debug)]
pub struct ResponseSnapshot {
    pub status: Option<u16>,
    pub duration_ms: Option<u64>,
    pub error: Option<String>,
    pub headers: Vec<(String, String)>,
    pub body_raw: String,
    pub body_pretty: Option<String>,
}

/// The record of the workbench at the end of an automation run.
#[derive(Debug)]
pub struct AutomationStateSnapshot {
    pub scenario_name: String,
    pub outcome: String,
    pub failure_reason: Option<String>,
    pub progress: SnapshotProgress,
    pub status_line: String,
    pub selected_request: Option<SelectedRequestSnapshot>,
    pub request_mode: String,
    pub response_display: String,
    pub response_tab: String,
    pub active_environment: Option<String>,
    pub project_roots: Vec<String>,
    pub global_env_roots: Vec<String>,
    pub environments: Vec<EnvironmentSnapshot>,
    pub draft: RequestDraftSnapshot,
    pub graphql_query: String,
    pub graphql_variables: String,
    pub header_rows: Vec<HeaderRowSnapshot>,
    pub response_viewer: String,
    pub response: Option<ResponseSnapshot>,
    pub collections: Vec<HttpFileSnapshot>,
}

/// The selected request a snapshot records: a request of a loaded file, by path and index.
pub open spec fn selected_record_spec(sel: Option<RequestIdView>) -> Option<(Seq<char>, usize)> {
    match sel {
        Some(RequestIdView::HttpFile { path, index }) => Some((path, index)),
        _ => None,
    }
}

pub open spec fn selected_record(s: Option<SelectedRequestSnapshot>) -> Option<(Seq<char>, usize)> {
    match s {
        Some(x) => Some((x.path@, x.index)),
        None => None,
    }
}

/// The name of the active environment, if the index names one.
pub open spec fn active_environment_name(w: WorkbenchView) -> Option<Seq<char>> {
    if w.active_environment < w.environments.len() {
        Some(w.environments[w.active_environment as int].name)
    } else {
        None
    }
}

pub open spec fn environment_records(v: Seq<EnvironmentSnapshot>) -> Seq<EnvironmentView> {
    v.map_values(|e: EnvironmentSnapshot| EnvironmentView { name: e.name@, vars: e.vars@ })
}

pub open spec fn header_row_records(v: Seq<HeaderRowSnapshot>) -> Seq<(Seq<char>, Seq<char>)> {
    v.map_values(|r: HeaderRowSnapshot| (r.name@, r.value@))
}

/// A recorded response as plain values: status, duration, error, headers, body as received,
/// body in its pretty form.
pub open spec fn response_record(r: Option<ResponseSnapshot>) -> Option<
    (Option<u16>, Option<u64>, Option<Seq<char>>, Seq<(Seq<char>, Seq<char>)>, Seq<char>, Option<Seq<char>>),
> {
    match r {
        Some(x) => Some(
            (
                x.status,
                x.duration_ms,
                crate::cli::opt_seq(x.error),
                entry_views(x.headers@),
                x.body_raw@,
                crate::cli::opt_seq(x.body_pretty),
            ),
        ),
        None => None,
    }
}

/// What a snapshot records of the response shown.
pub open spec fn response_record_spec(r: Option<ResponseView>) -> Option<
    (Option<u16>, Option<u64>, Option<Seq<char>>, Seq<(Seq<char>, Seq<char>)>, Seq<char>, Option<Seq<char>>),
> {
    match r {
        Some(x) => Some(
            (
                x.status,
                x.duration_ms,
                x.error,
                x.headers,
                x.body.raw,
                match x.body.pretty {
                    Some(p) => Some(p.1),
                    None => None,
                },
            ),
        ),
        None => None,
    }
}

fn clone_pairs(v: &Vec<(String, String)>) -> (r: Vec<(String, String)>)
    ensures
        entry_views(r@) == entry_views(v@),
{
    let mut r: Vec<(String, String)> = Vec::new();
    let mut i: usize = 0;
    while i < v.len()
        invariant
            i <= v@.len(),
            entry_views(r@) == entry_views(v@).take(i as int),
        decreases v.len() - i,
    {
        let ghost prev = entry_views(r@);
        r.push((v[i].0.clone(), v[i].1.clone()));
        assert(entry_views(r@) =~= prev.push((v@[i as int].0@, v@[i as int].1@)));
        assert(entry_views(v@).take(i + 1) =~= entry_views(v@).take(i as int).push((v@[i as int].0@, v@[i as int].1@)));
        i = i + 1;
    }
    assert(entry_views(v@).take(v@.len() as int) =~= entry_views(v@));
    r
}

fn snapshot_environments(v: &Vec<Environment>) -> (r: Vec<EnvironmentSnapshot>)
    ensures
        environment_records(r@) == env_views(v@),
{
    let mut r: Vec<EnvironmentSnapshot> = Vec::new();
    let mut i: usize = 0;
    while i < v.len()
        invariant
            i <= v@.len(),
            environment_records(r@) == env_views(v@).take(i as int),
        decreases v.len() - i,
    {
        let ghost prev = environment_records(r@);
        r.push(EnvironmentSnapshot { name: v[i].name.clone(), vars: v[i].vars.clone() });
        assert(environment_records(r@) =~= prev.push(v@[i as int]@));
        assert(env_views(v@).take(i + 1) =~= env_views(v@).take(i as int).push(v@[i as int]@));
        i = i + 1;
    }
    assert(env_views(v@).take(v@.len() as int) =~= env_views(v@));
    r
}

fn snapshot_header_rows(v: &Vec<HeaderRow>) -> (r: Vec<HeaderRowSnapshot>)
    ensures
        header_row_records(r@) == crate::editor::row_views(v@),
{
    let mut r: Vec<HeaderRowSnapshot> = Vec::new();
    let mut i: usize = 0;
    while i < v.len()
        invariant
            i <= v@.len(),
            header_row_records(r@) == crate::editor::row_views(v@).take(i as int),
        decreases v.len() - i,
    {
        let ghost prev = header_row_records(r@);
        r.push(HeaderRowSnapshot { name: v[i].name.clone(), value: v[i].value.clone() });
        assert(header_row_records(r@) =~= prev.push(v@[i as int]@));
        assert(crate::editor::row_views(v@).take(i + 1) =~= crate::editor::row_views(v@).take(i as int).push(
            v@[i as int]@,
        ));
        i = i + 1;
    }
    assert(crate::editor::row_views(v@).take(v@.len() as int) =~= crate::editor::row_views(v@));
    r
}

fn root_strings_of_projects(v: &[crate::pathing::ProjectRoot]) -> (r: Vec<String>)
    ensures
        string_views(r@) == project_views(v@),
{
    let mut r: Vec<String> = Vec::new();
    let mut i: usize = 0;
    while i < v.len()
        invariant
            i <= v@.len(),
            string_views(r@) == project_views(v@).take(i as int),
        decreases v.len() - i,
    {
        let ghost prev = string_views(r@);
        r.push(String::from_str(v[i].as_path()));
        assert(string_views(r@) =~= prev.push(v@[i as int]@));
        assert(project_views(v@).take(i + 1) =~= project_views(v@).take(i as int).push(v@[i as int]@));
        i = i + 1;
    }
    assert(project_views(v@).take(v@.len() as int) =~= project_views(v@));
    r
}

fn root_strings_of_globals(v: &[crate::pathing::GlobalEnvRoot]) -> (r: Vec<String>)
    ensures
        string_views(r@) == global_views(v@),
{
    let mut r: Vec<String> = Vec::new();
    let mut i: usize = 0;
    while i < v.len()
        invariant
            i <= v@.len(),
            string_views(r@) == global_views(v@).take(i as int),
        decreases v.len() - i,
    {
        let ghost prev = string_views(r@);
        r.push(String::from_str(v[i].as_path()));
        assert(string_views(r@) =~= prev.push(v@[i as int]@));
        assert(global_views(v@).take(i + 1) =~= global_views(v@).take(i as int).push(v@[i as int]@));
        i = i + 1;
    }
    assert(global_views(v@).take(v@.len() as int) =~= global_views(v@));
    r
}

impl Workbench {
    /// The record of the workbench and the run at the end of a run.
    pub fn build_automation_state_snapshot(&self, runtime: &AutomationRuntime, outcome: &SnapshotOutcome) -> (r:
        AutomationStateSnapshot)
        ensures
            r.scenario_name@ == runtime@.scenario_name,
            r.outcome@ == (match outcome {
                SnapshotOutcome::Completed => "completed"@,
                SnapshotOutcome::Failed(_) => "failed"@,
            }),
            crate::cli::opt_seq(r.failure_reason) == (match outcome {
                SnapshotOutcome::Completed => None,
                SnapshotOutcome::Failed(reason) => Some(reason@),
            }),
            r.progress.current_step == runtime.current_step,
            r.progress.total_steps == runtime@.steps.len(),
            r.progress.done == runtime.done,
            r.status_line@ == self@.status_line,
            selected_record(r.selected_request) == selected_record_spec(self@.workspace.selection),
            r.request_mode@ == (match self.mode {
                RequestMode::Rest => "REST"@,
                RequestMode::GraphQl => "GraphQL"@,
            }),
            r.response_display@ == (match self.response_display {
                ResponseDisplay::Raw => "Raw"@,
                ResponseDisplay::Pretty => "Pretty"@,
            }),
            r.response_tab@ == (match self.response_tab {
                ResponseTab::Body => "Body"@,
                ResponseTab::Headers => "Headers"@,
            }),
            crate::cli::opt_seq(r.active_environment) == active_environment_name(self@),
            string_views(r.project_roots@) == self@.configuration.projects,
            string_views(r.global_env_roots@) == self@.configuration.globals,
            environment_records(r.environments@) == self@.environments,
            draft_record(r.draft) == draft_record_spec(self@.draft),
            r.graphql_query@ == self@.graphql_query,
            r.graphql_variables@ == self@.graphql_variables,
            header_row_records(r.header_rows@) == self@.header_rows,
            r.response_viewer@ == self@.response_viewer,
            response_record(r.response) == response_record_spec(self@.response),
            file_records(r.collections@) == collections_spec(self@.workspace.files, snapshot_paths(self@.workspace)),
    {
        let (outcome_name, failure_reason) = crate::automation::outcome_details(outcome);
        let selected_request = match self.workspace.selection() {
            Some(RequestId::HttpFile { path, index }) => Some(SelectedRequestSnapshot { path: path.clone(), index: *index }),
            _ => None,
        };
        let active_environment = if self.active_environment < self.environments.len() {
            Some(self.environments[self.active_environment].name.clone())
        } else {
            None
        };
        let response = match &self.response {
            Some(resp) => Some(
                ResponseSnapshot {
                    status: resp.preview.status,
                    duration_ms: resp.preview.duration_ms,
                    error: match &resp.preview.error {
                        Some(e) => Some(e.clone()),
                        None => None,
                    },
                    headers: clone_pairs(&resp.preview.headers),
                    body_raw: String::from_str(resp.body.raw()),
                    body_pretty: match resp.body.pretty_text() {
                        Some(t) => Some(String::from_str(t)),
                        None => None,
                    },
                },
            ),
            None => None,
        };
        let collections = snapshot_collections(self.workspace.http_files(), self.workspace.http_file_order());
        AutomationStateSnapshot {
            scenario_name: runtime.scenario_name.clone(),
            outcome: String::from_str(outcome_name),
            failure_reason,
            progress: SnapshotProgress {
                current_step: runtime.current_step,
                total_steps: runtime.steps.len(),
                done: runtime.done,
            },
            status_line: self.status_line.clone(),
            selected_request,
            request_mode: String::from_str(self.mode.label()),
            response_display: String::from_str(self.response_display.label()),
            response_tab: String::from_str(self.response_tab.label()),
            active_environment,
            project_roots: root_strings_of_projects(self.configuration.project_roots()),
            global_env_roots: root_strings_of_globals(self.configuration.global_env_roots()),
            environments: snapshot_environments(&self.environments),
            draft: snapshot_request_draft(&self.draft),
            graphql_query: self.graphql_query.clone(),
            graphql_variables: self.graphql_variables.clone(),
            header_rows: snapshot_header_rows(&self.header_rows),
            response_viewer: self.response_viewer.clone(),
            response,
            collections,
        }
    }
}

} // verus!
