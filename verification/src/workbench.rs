//! The workbench: everything the window shows and edits, and what each user action does to
//! it. The application runs the window and the file system and network work; each action
//! here changes the workbench and says what work the application is to do next.
use vstd::prelude::*;

use crate::domain::{ConfigView, ProjectConfiguration};
use crate::editor::{header_rows_for, headers_text, headers_from_rows, row_views, rows_of_lines, blank_row, HeaderRow, parse_header_rows};
use crate::env::{clone_environments, default_environment, env_views, Environment, EnvironmentView, with_default_environment};
use crate::model::{default_draft, DraftView, HttpFileView, RequestDraft, RequestId, RequestIdView};
use crate::options::{AuthState, AuthView, RequestMode};
use crate::response::{BodyDataView, ResponseData, ResponseDisplay, ResponseTab};
use crate::session::{env_index_of, find_environment, EditState, EditTargetView};
use crate::state::{AppState, AppStateView};
use crate::status::{status_line, status_text, string_views};
use crate::text::{decimal, lines};
use crate::workspace::{WorkspaceState, WorkspaceView};

verus! {

/// What the application does after an action.
#[derive(Debug, Clone, Copy, PartialEq, Eq, Structural)]
pub struct Reaction {
    /// Write the persisted state to the state file.
    pub persist: bool,
    /// Scan the project folders for `.http` and environment files.
    pub rescan: bool,
}

pub open spec fn nothing() -> Reaction {
    Reaction { persist: false, rescan: false }
}

/// The response shown, as plain values.
pub ghost struct ResponseView {
    pub status: Option<u16>,
    pub duration_ms: Option<u64>,
    pub error: Option<Seq<char>>,
    pub headers: Seq<(Seq<char>, Seq<char>)>,
    pub body: BodyDataView,
}

pub open spec fn response_view(r: Option<ResponseData>) -> Option<ResponseView> {
    match r {
        Some(d) => Some(ResponseView {
            status: d.preview.status,
            duration_ms: d.preview.duration_ms,
            error: crate::cli::opt_seq(d.preview.error),
            headers: crate::env::entry_views(d.preview.headers@),
            body: d.body@,
        }),
        None => None,
    }
}

/// Everything the window shows and edits.
#[derive(Debug)]
pub struct Workbench {
    pub workspace: WorkspaceState,
    pub configuration: ProjectConfiguration,
    pub edit_state: EditState,
    pub draft: RequestDraft,
    pub body_editor: String,
    pub status_line: String,
    pub response: Option<ResponseData>,
    pub environments: Vec<Environment>,
    pub active_environment: usize,
    pub state: AppState,
    pub response_viewer: String,
    pub save_path: String,
    pub project_path_input: String,
    pub global_env_path_input: String,
    pub mode: RequestMode,
    pub auth: AuthState,
    pub graphql_query: String,
    pub graphql_variables: String,
    pub header_rows: Vec<HeaderRow>,
    pub response_display: ResponseDisplay,
    pub response_tab: ResponseTab,
    pub show_shortcuts: bool,
    pub pending_rescan: bool,
    pub last_scan_ms: Option<u64>,
    pub collapsed_collections: Vec<String>,
}

/// The workbench as plain values.
#[verifier::ext_equal]
pub ghost struct WorkbenchView {
    pub workspace: WorkspaceView,
    pub configuration: ConfigView,
    pub edit: Option<Set<EditTargetView>>,
    pub draft: DraftView,
    pub body_editor: Seq<char>,
    pub status_line: Seq<char>,
    pub response: Option<ResponseView>,
    pub environments: Seq<EnvironmentView>,
    pub active_environment: nat,
    pub state: AppStateView,
    pub response_viewer: Seq<char>,
    pub save_path: Seq<char>,
    pub project_path_input: Seq<char>,
    pub global_env_path_input: Seq<char>,
    pub mode: RequestMode,
    pub auth: AuthView,
    pub graphql_query: Seq<char>,
    pub graphql_variables: Seq<char>,
    pub header_rows: Seq<(Seq<char>, Seq<char>)>,
    pub response_display: ResponseDisplay,
    pub response_tab: ResponseTab,
    pub show_shortcuts: bool,
    pub pending_rescan: bool,
    pub last_scan_ms: Option<u64>,
    pub collapsed: Set<Seq<char>>,
}

impl View for Workbench {
    type V = WorkbenchView;

    open spec fn view(&self) -> WorkbenchView {
        WorkbenchView {
            workspace: self.workspace@,
            configuration: self.configuration@,
            edit: self.edit_state@,
            draft: self.draft@,
            body_editor: self.body_editor@,
            status_line: self.status_line@,
            response: response_view(self.response),
            environments: env_views(self.environments@),
            active_environment: self.active_environment as nat,
            state: self.state@,
            response_viewer: self.response_viewer@,
            save_path: self.save_path@,
            project_path_input: self.project_path_input@,
            global_env_path_input: self.global_env_path_input@,
            mode: self.mode,
            auth: self.auth@,
            graphql_query: self.graphql_query@,
            graphql_variables: self.graphql_variables@,
            header_rows: row_views(self.header_rows@),
            response_display: self.response_display,
            response_tab: self.response_tab,
            show_shortcuts: self.show_shortcuts,
            pending_rescan: self.pending_rescan,
            last_scan_ms: self.last_scan_ms,
            collapsed: string_views(self.collapsed_collections@).to_set(),
        }
    }
}

// ---------------------------------------------------------------------------
// What the helpers compute
// ---------------------------------------------------------------------------

/// The texts whose placeholders count as used: the GraphQL query and variables in GraphQL
/// mode.
pub open spec fn extra_inputs(w: WorkbenchView) -> Seq<Seq<char>> {
    if w.mode == RequestMode::GraphQl {
        seq![w.graphql_query, w.graphql_variables]
    } else {
        Seq::empty()
    }
}

/// The status line for `base` in the workbench's current state.
pub open spec fn status_for(w: WorkbenchView, base: Seq<char>) -> Seq<char> {
    let env = if w.active_environment < w.environments.len() {
        Some(w.environments[w.active_environment as int])
    } else {
        None
    };
    status_text(
        base,
        w.draft,
        match env {
            Some(e) => Some(e.vars),
            None => None,
        },
        match env {
            Some(e) => Some(e.name),
            None => None,
        },
        extra_inputs(w),
    )
}

/// The header rows shown for a header text: one blank row when there is no text.
pub open spec fn rows_for_headers(headers: Seq<char>) -> Seq<(Seq<char>, Seq<char>)> {
    if headers.len() == 0 {
        seq![blank_row()]
    } else {
        rows_of_lines(lines(headers))
    }
}

/// `envs` with `e` put after every environment whose name does not sort after its name.
pub open spec fn insert_by_name(envs: Seq<EnvironmentView>, e: EnvironmentView) -> Seq<EnvironmentView>
    decreases envs.len(),
{
    if envs.len() == 0 {
        seq![e]
    } else if crate::env::lex_lt(e.name, envs.last().name) {
        insert_by_name(envs.drop_last(), e).push(envs.last())
    } else {
        envs.push(e)
    }
}

/// The environments in ascending order of name, keeping the order of equal names.
pub open spec fn sort_by_name(envs: Seq<EnvironmentView>) -> Seq<EnvironmentView>
    decreases envs.len(),
{
    if envs.len() == 0 {
        envs
    } else {
        insert_by_name(sort_by_name(envs.drop_last()), envs.last())
    }
}


/// Environments in ascending order of name.
pub open spec fn envs_sorted(s: Seq<EnvironmentView>) -> bool {
    forall|i: int, j: int| 0 <= i < j < s.len() ==> crate::env::lex_le(#[trigger] s[i].name, #[trigger] s[j].name)
}

proof fn lemma_insert_by_name_sorted(s: Seq<EnvironmentView>, e: EnvironmentView)
    requires
        envs_sorted(s),
    ensures
        envs_sorted(insert_by_name(s, e)),
        insert_by_name(s, e).to_multiset() == s.to_multiset().insert(e),
    decreases s.len(),
{
    broadcast use vstd::seq_lib::group_to_multiset_ensures;
    broadcast use vstd::multiset::group_multiset_axioms;

    if s.len() == 0 {
        assert(seq![e] =~= Seq::<EnvironmentView>::empty().push(e));
        assert(s =~= Seq::<EnvironmentView>::empty());
    } else if crate::env::lex_lt(e.name, s.last().name) {
        let d = s.drop_last();
        assert forall|i: int, j: int| 0 <= i < j < d.len() implies crate::env::lex_le(#[trigger] d[i].name, #[trigger] d[j].name) by {
            assert(d[i] == s[i] && d[j] == s[j]);
        }
        lemma_insert_by_name_sorted(d, e);
        let r = insert_by_name(d, e);
        assert(s =~= d.push(s.last()));
        assert forall|k: int| 0 <= k < r.len() implies crate::env::lex_le(#[trigger] r[k].name, s.last().name) by {
            assert(r.to_multiset().contains(r[k]));
            assert(d.to_multiset().insert(e).contains(r[k]));
            if r[k] == e {
                crate::env::lemma_lex_lt_le(e.name, s.last().name);
            } else {
                assert(d.to_multiset().contains(r[k]));
                assert(d.contains(r[k]));
                let m = choose|m: int| 0 <= m < d.len() && d[m] == r[k];
                assert(s[m] == d[m]);
                assert(crate::env::lex_le(s[m].name, s[s.len() - 1].name));
            }
        }
        let out = r.push(s.last());
        assert forall|i: int, j: int| 0 <= i < j < out.len() implies crate::env::lex_le(#[trigger] out[i].name, #[trigger] out[j].name) by {
            if j < r.len() {
                assert(out[i] == r[i] && out[j] == r[j]);
            } else {
                assert(out[i] == r[i]);
            }
        }
    } else {
        let out = s.push(e);
        crate::env::lemma_lex_not_lt_le(e.name, s.last().name);
        assert forall|i: int, j: int| 0 <= i < j < out.len() implies crate::env::lex_le(#[trigger] out[i].name, #[trigger] out[j].name) by {
            if j < s.len() {
                assert(out[i] == s[i] && out[j] == s[j]);
            } else {
                assert(out[i] == s[i]);
                if i < s.len() - 1 {
                    assert(crate::env::lex_le(s[i].name, s[s.len() - 1].name));
                    crate::env::lemma_lex_le_transitive(s[i].name, s[s.len() - 1].name, e.name);
                }
            }
        }
    }
}

/// The environments a scan found are offered in ascending order of name, each as often as
/// it was found.
pub proof fn lemma_sort_by_name(s: Seq<EnvironmentView>)
    ensures
        envs_sorted(sort_by_name(s)),
        sort_by_name(s).to_multiset() == s.to_multiset(),
    decreases s.len(),
{
    broadcast use vstd::seq_lib::group_to_multiset_ensures;

    if s.len() > 0 {
        lemma_sort_by_name(s.drop_last());
        lemma_insert_by_name_sorted(sort_by_name(s.drop_last()), s.last());
        assert(s =~= s.drop_last().push(s.last()));
    } else {
        assert(s.to_multiset() =~= sort_by_name(s).to_multiset());
    }
}

/// The default environment.
pub open spec fn default_env_view() -> EnvironmentView {
    EnvironmentView { name: "No environment"@, vars: Seq::empty() }
}

/// The environments offered after a scan, and the active one: the default, then the
/// environments found, by name; the active one keeps its name when it still exists, else
/// the saved one is taken, else the default.
pub open spec fn refresh_spec(w: WorkbenchView) -> WorkbenchView {
    let previous = if w.active_environment < w.environments.len() {
        Some(w.environments[w.active_environment as int].name)
    } else {
        w.state.active_environment
    };
    let envs = seq![default_env_view()] + sort_by_name(w.workspace.envs);
    let active = match previous {
        Some(n) => if env_index_of(envs, n) >= 0 {
            env_index_of(envs, n) as nat
        } else {
            0nat
        },
        None => 0nat,
    };
    WorkbenchView {
        environments: envs,
        active_environment: active,
        state: AppStateView { active_environment: Some(envs[active as int].name), ..w.state },
        ..w
    }
}

/// The workbench offering `envs` after the default environment, with the one that the saved
/// state names active (else the default one), and the saved state naming it.
pub open spec fn set_environments_spec(w: WorkbenchView, envs: Seq<EnvironmentView>) -> WorkbenchView {
    let all = seq![default_env_view()] + envs;
    let active = match w.state.active_environment {
        Some(n) => if env_index_of(all, n) >= 0 {
            env_index_of(all, n) as nat
        } else {
            0nat
        },
        None => 0nat,
    };
    WorkbenchView {
        environments: all,
        active_environment: active,
        state: AppStateView { active_environment: Some(all[active as int].name), ..w.state },
        ..w
    }
}

/// The text the response viewer shows.
pub open spec fn viewer_text(display: ResponseDisplay, response: Option<ResponseView>) -> Seq<char> {
    match response {
        None => "No response yet"@,
        Some(r) => if display == ResponseDisplay::Pretty {
            match r.body.pretty {
                Some(p) => p.1,
                None => r.body.raw,
            }
        } else {
            r.body.raw
        },
    }
}

/// The persisted state brought up to date with the folders and the order of files.
pub open spec fn persist_spec(w: WorkbenchView) -> WorkbenchView {
    WorkbenchView {
        state: AppStateView {
            project_roots: w.configuration.projects,
            global_env_roots: w.configuration.globals,
            http_root: if w.configuration.projects.len() > 0 {
                Some(w.configuration.projects[0])
            } else {
                None
            },
            http_file_order: w.workspace.order,
            ..w.state
        },
        ..w
    }
}


// ---------------------------------------------------------------------------
// Helpers
// ---------------------------------------------------------------------------

/// Puts `e` into `out`, after every environment whose name does not sort after its name.
fn insert_environment(out: &mut Vec<Environment>, e: Environment)
    ensures
        env_views(final(out)@) == insert_by_name(env_views(old(out)@), e@),
{
    let ghost s = env_views(out@);
    let name = crate::text::chars_of(e.name.as_str());
    let mut p: usize = out.len();
    assert(s.take(p as int) =~= s);
    assert(s.skip(p as int) =~= Seq::<EnvironmentView>::empty());
    while p > 0 && crate::env::lex_less(&name, &crate::text::chars_of(out[p - 1].name.as_str()))
        invariant
            p <= s.len(),
            s == env_views(out@),
            name@ == e@.name,
            insert_by_name(s, e@) == insert_by_name(s.take(p as int), e@) + s.skip(p as int),
        decreases p,
    {
        let ghost t = s.take(p as int);
        assert(t.last() == s[p - 1]);
        assert(t.drop_last() =~= s.take(p - 1));
        assert(s.skip(p - 1) =~= seq![s[p - 1]] + s.skip(p as int));
        p = p - 1;
    }
    let ghost t = s.take(p as int);
    if p > 0 {
        assert(t.last() == s[p - 1]);
    }
    let ghost ev = e@;
    out.insert(p, e);
    assert(env_views(out@) =~= insert_by_name(s, ev));
}

impl Workbench {
    /// Sets the status line to `base`, naming the variables the draft uses that the active
    /// environment does not define.
    pub fn update_status_with_missing(&mut self, base: &str)
        ensures
            final(self)@ == (WorkbenchView { status_line: status_for(old(self)@, base@), ..old(self)@ }),
    {
        let env = if self.active_environment < self.environments.len() {
            Some(&self.environments[self.active_environment])
        } else {
            None
        };
        let mut extras: Vec<String> = Vec::new();
        if self.mode == RequestMode::GraphQl {
            extras.push(self.graphql_query.clone());
            extras.push(self.graphql_variables.clone());
        }
        assert(string_views(extras@) =~= extra_inputs(self@));
        let line = status_line(base, &self.draft, env, extras.as_slice());
        self.status_line = line;
    }

    /// Sets the status line to `base` for `draft`, naming the variables that it and
    /// `extra_inputs` use and the active environment does not define.
    pub fn update_status_with_draft(&mut self, base: &str, draft: &RequestDraft, extra_inputs: &[String])
        ensures
            final(self)@ == (WorkbenchView {
                status_line: status_text(
                    base@,
                    draft@,
                    if old(self)@.active_environment < old(self)@.environments.len() {
                        Some(old(self)@.environments[old(self)@.active_environment as int].vars)
                    } else {
                        None
                    },
                    if old(self)@.active_environment < old(self)@.environments.len() {
                        Some(old(self)@.environments[old(self)@.active_environment as int].name)
                    } else {
                        None
                    },
                    string_views(extra_inputs@),
                ),
                ..old(self)@
            }),
    {
        let env = if self.active_environment < self.environments.len() {
            Some(&self.environments[self.active_environment])
        } else {
            None
        };
        let line = status_line(base, draft, env, extra_inputs);
        self.status_line = line;
    }

    /// Offers `envs` after the default environment and makes active the one named in the
    /// saved state, or the default one; the saved state then names the active one.
    pub fn set_environments(&mut self, envs: Vec<Environment>)
        ensures
            final(self)@ == set_environments_spec(old(self)@, env_views(envs@)),
    {
        let ghost w = self@;
        let ghost given = envs@;
        let all = with_default_environment(envs);
        proof {
            let ev = env_views(all@);
            let target = seq![default_env_view()] + env_views(given);
            assert(all@[0]@.vars =~= Seq::<(Seq<char>, Seq<char>)>::empty());
            assert forall|k: int| 0 <= k < ev.len() implies ev[k] == target[k] by {
                if k > 0 {
                    assert(all@[(k - 1) + 1] == given[k - 1]);
                }
            }
            assert(ev =~= target);
        }
        let active = match &self.state.active_environment {
            Some(n) => match find_environment(all.as_slice(), n.as_str()) {
                Some(k) => k,
                None => 0,
            },
            None => 0,
        };
        let name = all[active].name.clone();
        self.environments = all;
        self.active_environment = active;
        self.state.active_environment = Some(name);
        assert(self@ =~= set_environments_spec(w, env_views(given)));
    }

    /// Offers the environments found by the last scan, by name after the default one, and
    /// keeps the active one by name.
    pub fn refresh_visible_environments(&mut self)
        ensures
            final(self)@ == refresh_spec(old(self)@),
    {
        let ghost w = self@;
        let previous: Option<String> = if self.active_environment < self.environments.len() {
            Some(self.environments[self.active_environment].name.clone())
        } else {
            match &self.state.active_environment {
                Some(n) => Some(n.clone()),
                None => None,
            }
        };
        let all = self.workspace.all_environments();
        let ghost av = env_views(all@);
        let mut sorted: Vec<Environment> = Vec::new();
        let mut i: usize = 0;
        while i < all.len()
            invariant
                i <= av.len(),
                av == env_views(all@),
                env_views(sorted@) == sort_by_name(av.take(i as int)),
            decreases all.len() - i,
        {
            let ghost t = av.take(i + 1);
            assert(t.drop_last() =~= av.take(i as int));
            assert(t.last() == all@[i as int]@);
            insert_environment(&mut sorted, all[i].clone());
            i = i + 1;
        }
        assert(av.take(av.len() as int) =~= av);
        let ghost sorted_seq = sorted@;
        let envs = with_default_environment(sorted);
        proof {
            let ev = env_views(envs@);
            let target = seq![default_env_view()] + sort_by_name(av);
            assert(envs@[0]@.vars =~= Seq::<(Seq<char>, Seq<char>)>::empty());
            assert forall|k: int| 0 <= k < ev.len() implies ev[k] == target[k] by {
                if k > 0 {
                    assert(envs@[(k - 1) + 1] == sorted_seq[k - 1]);
                }
            }
            assert(ev =~= target);
        }
        let active = match &previous {
            Some(n) => match find_environment(envs.as_slice(), n.as_str()) {
                Some(k) => k,
                None => 0,
            },
            None => 0,
        };
        let name = envs[active].name.clone();
        self.environments = envs;
        self.active_environment = active;
        self.state.active_environment = Some(name);
        assert(self@ =~= refresh_spec(w));
    }

    /// Shows the response body, pretty or raw as chosen.
    pub fn update_response_viewer(&mut self)
        ensures
            final(self)@ == (WorkbenchView {
                response_viewer: viewer_text(old(self)@.response_display, old(self)@.response),
                ..old(self)@
            }),
            final(self).response == old(self).response,
    {
        let text = match &self.response {
            None => String::from_str("No response yet"),
            Some(response) => {
                if self.response_display == ResponseDisplay::Pretty {
                    match response.body.pretty_text() {
                        Some(p) => String::from_str(p),
                        None => String::from_str(response.body.raw()),
                    }
                } else {
                    String::from_str(response.body.raw())
                }
            },
        };
        self.response_viewer = text;
    }

    /// Fills the header rows from the draft's header text.
    pub fn set_header_rows_from_draft(&mut self)
        ensures
            final(self)@ == (WorkbenchView { header_rows: rows_for_headers(old(self)@.draft.headers), ..old(self)@ }),
    {
        if self.draft.headers.unicode_len() == 0 {
            let mut rows: Vec<HeaderRow> = Vec::new();
            rows.push(HeaderRow { name: String::new(), value: String::new() });
            assert(row_views(rows@) =~= seq![blank_row()]);
            self.header_rows = rows;
        } else {
            self.header_rows = parse_header_rows(self.draft.headers.as_str());
        }
    }

    /// Rewrites the draft's header text from the rows.
    pub fn rebuild_headers_from_rows(&mut self)
        ensures
            final(self)@ == (WorkbenchView {
                draft: DraftView { headers: headers_from_rows(old(self)@.header_rows), ..old(self)@.draft },
                ..old(self)@
            }),
    {
        self.draft.headers = headers_text(self.header_rows.as_slice());
    }

    /// Brings the persisted state up to date with the folders and the order of files.
    pub fn persist_state(&mut self)
        ensures
            final(self)@ == persist_spec(old(self)@),
    {
        let ghost w = self@;
        let projects = self.configuration.project_root_paths();
        let globals = self.configuration.global_env_root_paths();
        let first = if projects.len() > 0 {
            Some(projects[0].clone())
        } else {
            None
        };
        let order = self.workspace.http_file_order();
        let mut order_copy: Vec<String> = Vec::new();
        let mut i: usize = 0;
        while i < order.len()
            invariant
                i <= order@.len(),
                string_views(order_copy@) == string_views(order@.take(i as int)),
            decreases order.len() - i,
        {
            let x = order[i].clone();
            let ghost b = string_views(order_copy@);
            order_copy.push(x);
            assert(string_views(order_copy@) =~= b.push(x@));
            assert(string_views(order@.take(i + 1)) =~= string_views(order@.take(i as int)).push(order@[i as int]@));
            i = i + 1;
        }
        assert(order@.take(order@.len() as int) =~= order@);
        self.state.project_roots = projects;
        self.state.global_env_roots = globals;
        self.state.http_root = first;
        self.state.http_file_order = order_copy;
        assert(self@ =~= persist_spec(w));
    }
}


// ---------------------------------------------------------------------------
// Editing the draft
// ---------------------------------------------------------------------------

/// The workbench with the status line set for `base`.
pub open spec fn with_status(w: WorkbenchView, base: Seq<char>) -> WorkbenchView {
    WorkbenchView { status_line: status_for(w, base), ..w }
}

/// The workbench with new header rows, the draft's header text following them.
pub open spec fn with_header_rows(w: WorkbenchView, rows: Seq<(Seq<char>, Seq<char>)>) -> WorkbenchView {
    WorkbenchView { header_rows: rows, draft: DraftView { headers: headers_from_rows(rows), ..w.draft }, ..w }
}

/// The marked collapsed files after toggling `path`.
pub open spec fn toggle_collapsed(s: Set<Seq<char>>, path: Seq<char>) -> Set<Seq<char>> {
    if s.contains(path) {
        s.remove(path)
    } else {
        s.insert(path)
    }
}

impl Workbench {
    pub fn select_method(&mut self, method: crate::model::Method)
        ensures
            final(self)@ == (WorkbenchView { draft: DraftView { method, ..old(self)@.draft }, ..old(self)@ }),
    {
        self.draft.method = method;
    }

    pub fn change_url(&mut self, url: String)
        ensures
            final(self)@ == with_status(
                WorkbenchView { draft: DraftView { url: url@, ..old(self)@.draft }, ..old(self)@ },
                "Ready"@,
            ),
    {
        self.draft.url = url;
        self.update_status_with_missing("Ready");
    }

    pub fn change_title(&mut self, title: String)
        ensures
            final(self)@ == (WorkbenchView { draft: DraftView { title: title@, ..old(self)@.draft }, ..old(self)@ }),
    {
        self.draft.title = title;
    }

    pub fn change_mode(&mut self, mode: RequestMode)
        ensures
            final(self)@ == with_status(WorkbenchView { mode, ..old(self)@ }, "Ready"@),
    {
        self.mode = mode;
        self.update_status_with_missing("Ready");
    }

    /// The body editor now shows `text`.
    pub fn edit_body(&mut self, text: String)
        ensures
            final(self)@ == with_status(
                WorkbenchView { body_editor: text@, draft: DraftView { body: text@, ..old(self)@.draft }, ..old(self)@ },
                "Ready"@,
            ),
    {
        self.draft.body = text.clone();
        self.body_editor = text;
        self.update_status_with_missing("Ready");
    }

    /// The GraphQL query editor now shows `text`.
    pub fn edit_graphql_query(&mut self, text: String)
        ensures
            final(self)@ == with_status(WorkbenchView { graphql_query: text@, ..old(self)@ }, "Ready"@),
    {
        self.graphql_query = text;
        self.update_status_with_missing("Ready");
    }

    /// The GraphQL variables editor now shows `text`.
    pub fn edit_graphql_variables(&mut self, text: String)
        ensures
            final(self)@ == with_status(WorkbenchView { graphql_variables: text@, ..old(self)@ }, "Ready"@),
    {
        self.graphql_variables = text;
        self.update_status_with_missing("Ready");
    }

    pub fn change_auth(&mut self, auth: AuthState)
        ensures
            final(self)@ == (WorkbenchView { auth: auth@, ..old(self)@ }),
    {
        self.auth = auth;
    }

    /// Renames header row `idx`; a row that does not exist is left alone.
    pub fn change_header_name(&mut self, idx: usize, value: String)
        ensures
            final(self)@ == with_status(
                if idx < old(self)@.header_rows.len() {
                    with_header_rows(
                        old(self)@,
                        old(self)@.header_rows.update(idx as int, (value@, old(self)@.header_rows[idx as int].1)),
                    )
                } else {
                    old(self)@
                },
                "Ready"@,
            ),
    {
        if idx < self.header_rows.len() {
            let v = self.header_rows[idx].value.clone();
            let ghost before = row_views(self.header_rows@);
            let ghost vv = value@;
            self.header_rows.set(idx, HeaderRow { name: value, value: v });
            assert(row_views(self.header_rows@) =~= before.update(idx as int, (vv, before[idx as int].1)));
            self.rebuild_headers_from_rows();
        }
        self.update_status_with_missing("Ready");
    }

    /// Changes the value of header row `idx`; a row that does not exist is left alone.
    pub fn change_header_value(&mut self, idx: usize, value: String)
        ensures
            final(self)@ == with_status(
                if idx < old(self)@.header_rows.len() {
                    with_header_rows(
                        old(self)@,
                        old(self)@.header_rows.update(idx as int, (old(self)@.header_rows[idx as int].0, value@)),
                    )
                } else {
                    old(self)@
                },
                "Ready"@,
            ),
    {
        if idx < self.header_rows.len() {
            let n = self.header_rows[idx].name.clone();
            let ghost before = row_views(self.header_rows@);
            let ghost vv = value@;
            self.header_rows.set(idx, HeaderRow { name: n, value });
            assert(row_views(self.header_rows@) =~= before.update(idx as int, (before[idx as int].0, vv)));
            self.rebuild_headers_from_rows();
        }
        self.update_status_with_missing("Ready");
    }

    pub fn add_header(&mut self)
        ensures
            final(self)@ == with_status(with_header_rows(old(self)@, old(self)@.header_rows.push(blank_row())), "Ready"@),
    {
        let ghost before = row_views(self.header_rows@);
        self.header_rows.push(HeaderRow { name: String::new(), value: String::new() });
        assert(row_views(self.header_rows@) =~= before.push(blank_row()));
        self.rebuild_headers_from_rows();
        self.update_status_with_missing("Ready");
    }

    /// Removes header row `idx`; a row that does not exist is left alone.
    pub fn remove_header(&mut self, idx: usize)
        ensures
            final(self)@ == with_status(
                if idx < old(self)@.header_rows.len() {
                    with_header_rows(old(self)@, old(self)@.header_rows.remove(idx as int))
                } else {
                    old(self)@
                },
                "Ready"@,
            ),
    {
        if idx < self.header_rows.len() {
            let ghost before = row_views(self.header_rows@);
            self.header_rows.remove(idx);
            assert(row_views(self.header_rows@) =~= before.remove(idx as int));
            self.rebuild_headers_from_rows();
        }
        self.update_status_with_missing("Ready");
    }

    pub fn change_save_path(&mut self, path: String)
        ensures
            final(self)@ == (WorkbenchView { save_path: path@, ..old(self)@ }),
    {
        self.save_path = path;
    }

    pub fn change_project_path_input(&mut self, path: String)
        ensures
            final(self)@ == (WorkbenchView { project_path_input: path@, ..old(self)@ }),
    {
        self.project_path_input = path;
    }

    pub fn change_global_env_path_input(&mut self, path: String)
        ensures
            final(self)@ == (WorkbenchView { global_env_path_input: path@, ..old(self)@ }),
    {
        self.global_env_path_input = path;
    }

    /// Shows the response raw or pretty.
    pub fn change_response_display(&mut self, display: ResponseDisplay)
        ensures
            final(self)@ == (WorkbenchView {
                response_display: display,
                response_viewer: viewer_text(display, old(self)@.response),
                ..old(self)@
            }),
    {
        self.response_display = display;
        self.update_response_viewer();
    }

    pub fn change_response_tab(&mut self, tab: ResponseTab)
        ensures
            final(self)@ == (WorkbenchView { response_tab: tab, ..old(self)@ }),
    {
        self.response_tab = tab;
    }

    pub fn toggle_shortcuts_help(&mut self)
        ensures
            final(self)@ == (WorkbenchView { show_shortcuts: !old(self)@.show_shortcuts, ..old(self)@ }),
    {
        self.show_shortcuts = !self.show_shortcuts;
    }

    /// Folds or unfolds a file in the sidebar.
    pub fn toggle_collection(&mut self, path: String)
        ensures
            final(self)@ == (WorkbenchView { collapsed: toggle_collapsed(old(self)@.collapsed, path@), ..old(self)@ }),
    {
        let ghost before = string_views(self.collapsed_collections@);
        let mut kept: Vec<String> = Vec::new();
        let mut found = false;
        let mut i: usize = 0;
        while i < self.collapsed_collections.len()
            invariant
                i <= before.len(),
                before == string_views(self.collapsed_collections@),
                found == before.take(i as int).contains(path@),
                string_views(kept@).to_set() == before.take(i as int).to_set().remove(path@),
            decreases self.collapsed_collections.len() - i,
        {
            proof {
                assert(before.take(i + 1) =~= before.take(i as int).push(before[i as int]));
                before.take(i as int).lemma_push_to_set_commute(before[i as int]);
            }
            if crate::text::str_eq(self.collapsed_collections[i].as_str(), path.as_str()) {
                found = true;
                assert(before.take(i + 1)[i as int] == path@);
            } else {
                let x = self.collapsed_collections[i].clone();
                let ghost kb = string_views(kept@);
                kept.push(x);
                assert(string_views(kept@) =~= kb.push(x@));
                proof {
                    kb.lemma_push_to_set_commute(x@);
                }
            }
            assert(string_views(kept@).to_set() =~= before.take(i + 1).to_set().remove(path@));
            i = i + 1;
        }
        assert(before.take(before.len() as int) =~= before);
        if !found {
            let ghost kb = string_views(kept@);
            let ghost pv = path@;
            kept.push(path);
            assert(string_views(kept@) =~= kb.push(pv));
            proof {
                kb.lemma_push_to_set_commute(pv);
            }
            assert(string_views(kept@).to_set() =~= before.to_set().insert(pv));
        }
        self.collapsed_collections = kept;
    }

    /// The text copied by "copy raw": the response body as received, or what the viewer
    /// shows when there is no response.
    pub fn copy_response_raw(&self) -> (r: String)
        ensures
            r@ == match self@.response {
                Some(resp) => resp.body.raw,
                None => self@.response_viewer,
            },
    {
        match &self.response {
            Some(response) => String::from_str(response.body.raw()),
            None => self.response_viewer.clone(),
        }
    }

    /// The text copied by "copy pretty": the pretty body, when there is one.
    pub fn copy_response_pretty(&self) -> (r: Option<String>)
        ensures
            match r {
                Some(t) => (self@.response matches Some(resp) && (resp.body.pretty matches Some(p) && t@ == p.1)),
                None => !(self@.response matches Some(resp) && resp.body.pretty is Some),
            },
    {
        match &self.response {
            Some(response) => match response.body.pretty_text() {
                Some(t) => Some(String::from_str(t)),
                None => None,
            },
            None => None,
        }
    }
}

/// Folding a file twice leaves the sidebar as it was.
pub proof fn lemma_toggle_collection_twice(s: Set<Seq<char>>, path: Seq<char>)
    ensures
        toggle_collapsed(toggle_collapsed(s, path), path) == s,
{
    assert(toggle_collapsed(toggle_collapsed(s, path), path) =~= s);
}



// ---------------------------------------------------------------------------
// Start-up, selection and scanning
// ---------------------------------------------------------------------------

/// The draft a request names: the request at `index` of the first file at `path`, or a new
/// request when there is none.
pub open spec fn selected_draft(files: Seq<crate::model::HttpFileView>, path: Seq<char>, index: nat) -> DraftView {
    let k = crate::workspace::first_index(crate::workspace::file_paths(files), path);
    if k >= 0 && index < files[k].requests.len() {
        files[k].requests[index as int]
    } else {
        DraftView { title: "New request"@, ..default_draft() }
    }
}

/// Selecting a request of an `.http` file loads it into the editor (a new request when
/// there is none at that place), remembers its file as the save path, and refreshes the
/// environments, the status line and the response viewer; nothing happens while no
/// project is configured.
pub open spec fn select_spec(w: WorkbenchView, id: RequestIdView) -> WorkbenchView {
    match id {
        RequestIdView::HttpFile { path, index } => if !w.workspace.configured {
            w
        } else {
            let draft = selected_draft(w.workspace.files, path, index as nat);
            let w1 = WorkbenchView {
                workspace: WorkspaceView { selection: Some(id), ..w.workspace },
                draft,
                body_editor: draft.body,
                header_rows: rows_for_headers(draft.headers),
                ..w
            };
            let w2 = WorkbenchView { save_path: path, ..refresh_spec(w1) };
            let w3 = with_status(w2, "Ready"@);
            WorkbenchView { response_viewer: viewer_text(w3.response_display, w3.response), ..w3 }
        },
        _ => w,
    }
}

/// How long after a scan further file changes are ignored, in milliseconds.
pub const FILE_SCAN_DEBOUNCE_MS: u64 = 300;

/// What a change of files on disk does: nothing while unconfigured; a rescan is put off
/// while editing, and skipped within the debounce time of the last one.
pub open spec fn files_changed_spec(w: WorkbenchView, now_ms: u64) -> (WorkbenchView, Reaction) {
    if !w.configuration.configured {
        (w, nothing())
    } else if w.edit is Some {
        (WorkbenchView { pending_rescan: true, ..w }, nothing())
    } else if w.last_scan_ms matches Some(l) && (if now_ms >= l {
        now_ms - l
    } else {
        0
    }) < FILE_SCAN_DEBOUNCE_MS {
        (w, nothing())
    } else {
        (WorkbenchView { last_scan_ms: Some(now_ms), pending_rescan: false, ..w }, Reaction { persist: false, rescan: true })
    }
}


/// The status line at start-up: ready, or asking for a project folder, after the number
/// of saved folders that were dropped, if any.
pub open spec fn startup_status_text(warnings: nat, configured: bool) -> Seq<char> {
    if warnings == 0 {
        if configured {
            "Ready"@
        } else {
            "No projects configured. Add a project folder to start."@
        }
    } else if configured {
        "Ignored "@ + decimal(warnings) + " invalid saved folder(s)."@
    } else {
        "Ignored "@ + decimal(warnings) + " invalid saved folder(s). Add a project folder to start."@
    }
}

/// The workbench at start-up: an empty editor, no response, the saved file order when a
/// project is configured, the environments offered from nothing scanned yet, and the state
/// to save; the status line says whether a project folder is needed and how many saved
/// folders were dropped, and is "Ready" (naming missing variables) when all is well.
pub open spec fn initial_spec(state: AppStateView, c: ConfigView, warnings: nat) -> WorkbenchView {
    let w1 = refresh_spec(fresh_view(state, c, warnings));
    let w2 = if c.configured && warnings == 0 {
        with_status(w1, "Ready"@)
    } else {
        w1
    };
    persist_spec(w2)
}

/// The workbench as built, before the environments are offered and the state is saved.
pub open spec fn fresh_view(state: AppStateView, c: ConfigView, warnings: nat) -> WorkbenchView {
    WorkbenchView {
        workspace: if c.configured {
            WorkspaceView { order: state.http_file_order, ..crate::workspace::empty_workspace(true) }
        } else {
            crate::workspace::empty_workspace(false)
        },
        configuration: c,
        edit: None,
        draft: default_draft(),
        body_editor: Seq::empty(),
        status_line: startup_status_text(warnings, c.configured),
        response: None,
        environments: seq![default_env_view()],
        active_environment: 0,
        state,
        response_viewer: "No response yet"@,
        save_path: Seq::empty(),
        project_path_input: Seq::empty(),
        global_env_path_input: Seq::empty(),
        mode: RequestMode::Rest,
        auth: AuthView::NoAuth,
        graphql_query: Seq::empty(),
        graphql_variables: "{}"@,
        header_rows: Seq::empty(),
        response_display: ResponseDisplay::Pretty,
        response_tab: ResponseTab::Body,
        show_shortcuts: false,
        pending_rescan: false,
        last_scan_ms: None,
        collapsed: Set::empty(),
    }
}

impl Workbench {
    /// The workbench at start-up, from the saved state, the configuration it gives and the
    /// warnings about saved folders that were dropped.
    pub fn new(state: AppState, configuration: ProjectConfiguration, startup_warnings: &[String]) -> (r: (Self, Reaction))
        ensures
            r.0@ == initial_spec(state@, configuration@, startup_warnings@.len()),
            r.1 == (Reaction { persist: true, rescan: configuration@.configured }),
    {
        let warning_count = startup_warnings.len();
        let startup = crate::session::StartupStatus::from_context(startup_warnings, &configuration);
        let initial_status_line = startup.status_line();
        assert(initial_status_line@ == startup_status_text(warning_count as nat, configuration@.configured));
        let order = crate::state::clone_strings(&state.http_file_order);
        let workspace = WorkspaceState::from_config(&configuration, order);
        let mut environments: Vec<Environment> = Vec::new();
        environments.push(default_environment());
        let mut w = Workbench {
            workspace,
            configuration,
            edit_state: EditState::Off,
            draft: RequestDraft::default(),
            body_editor: String::new(),
            status_line: initial_status_line,
            response: None,
            environments,
            active_environment: 0,
            state,
            response_viewer: String::from_str("No response yet"),
            save_path: String::new(),
            project_path_input: String::new(),
            global_env_path_input: String::new(),
            mode: RequestMode::Rest,
            auth: AuthState::NoAuth,
            graphql_query: String::new(),
            graphql_variables: String::from_str("{}"),
            header_rows: Vec::new(),
            response_display: ResponseDisplay::Pretty,
            response_tab: ResponseTab::Body,
            show_shortcuts: false,
            pending_rescan: false,
            last_scan_ms: None,
            collapsed_collections: Vec::new(),
        };
        assert(row_views(w.header_rows@) =~= Seq::<(Seq<char>, Seq<char>)>::empty());
        proof {
            reveal_strlit("");
        }
        assert(w@.body_editor =~= Seq::<char>::empty());
        assert(string_views(w.collapsed_collections@).to_set() =~= Set::<Seq<char>>::empty());
        assert(w.environments@[0]@.vars =~= Seq::<(Seq<char>, Seq<char>)>::empty());
        assert(w.environments@[0]@ == default_env_view());
        assert(env_views(w.environments@) =~= seq![default_env_view()]);
        let ghost fv = fresh_view(w.state@, w.configuration@, startup_warnings@.len());
        assert(w@ == fv);
        w.refresh_visible_environments();
        let scan = w.configuration.should_scan();
        if scan && startup_warnings.len() == 0 {
            w.update_status_with_missing("Ready");
        }
        w.persist_state();
        (w, Reaction { persist: true, rescan: scan })
    }

    /// Loads a request into the editor.
    pub fn apply_selection(&mut self, id: &RequestId)
        ensures
            final(self)@ == select_spec(old(self)@, id@),
    {
        let ghost w = self@;
        if let RequestId::HttpFile { path, index } = id {
            let found = match self.workspace.configured_mut() {
                None => {
                    return;
                },
                Some(ws) => {
                    ws.selection = Some(id.clone());
                    match crate::workspace::find_file(ws.http_files.as_slice(), path.as_str()) {
                        Some(k) => {
                            if *index < ws.http_files[k].requests.len() {
                                Some(ws.http_files[k].requests[*index].clone())
                            } else {
                                None
                            }
                        },
                        None => None,
                    }
                },
            };
            let draft = match found {
                Some(d) => d,
                None => RequestDraft::titled(String::from_str("New request")),
            };
            assert(draft@ == selected_draft(w.workspace.files, path@, *index as nat));
            self.body_editor = draft.body.clone();
            self.draft = draft;
            self.set_header_rows_from_draft();
            self.refresh_visible_environments();
            self.save_path = path.clone();
            self.update_status_with_missing("Ready");
            self.update_response_viewer();
        }
    }

    /// Files on disk changed.
    pub fn files_changed(&mut self, now_ms: u64) -> (r: Reaction)
        ensures
            (final(self)@, r) == files_changed_spec(old(self)@, now_ms),
    {
        if !self.configuration.should_scan() {
            return Reaction { persist: false, rescan: false };
        }
        if self.edit_state.is_on() {
            self.pending_rescan = true;
            return Reaction { persist: false, rescan: false };
        }
        if let Some(last) = self.last_scan_ms {
            if now_ms.saturating_sub(last) < FILE_SCAN_DEBOUNCE_MS {
                return Reaction { persist: false, rescan: false };
            }
        }
        self.last_scan_ms = Some(now_ms);
        self.pending_rescan = false;
        Reaction { persist: false, rescan: true }
    }

    /// Takes in the `.http` files a scan found (each file once); ignored while no project
    /// is configured.
    pub fn http_files_loaded(&mut self, files: Vec<crate::model::HttpFile>)
        requires
            crate::workspace::paths_unique(crate::workspace::file_views(files@)),
        ensures
            !old(self)@.configuration.configured ==> final(self)@ == old(self)@,
            old(self)@.configuration.configured ==> {
                let ws = final(self)@.workspace;
                &&& ws.configured
                &&& ws.files == crate::workspace::file_views(files@)
                &&& crate::workspace::order_after_load(
                    crate::workspace::ensure_configured_spec(old(self)@.workspace).order,
                    crate::workspace::file_views(files@),
                    ws.order,
                )
                &&& ws.selection == crate::workspace::selection_after_load(
                    crate::workspace::ensure_configured_spec(old(self)@.workspace).selection,
                    crate::workspace::file_views(files@),
                )
                &&& ws.envs == crate::workspace::ensure_configured_spec(old(self)@.workspace).envs
                &&& final(self)@ == refresh_spec(WorkbenchView { workspace: ws, ..old(self)@ })
            },
    {
        if !self.configuration.should_scan() {
            return;
        }
        let ghost w = self@;
        {
            let ws = self.workspace.ensure_configured();
            ws.load_http_files(files);
        }
        let ghost loaded = self@;
        assert(loaded =~= WorkbenchView { workspace: loaded.workspace, ..w });
        self.refresh_visible_environments();
    }

    /// Turns edit mode on or off. Turning it off saves the state and runs a rescan that was
    /// put off while editing.
    pub fn toggle_edit_mode(&mut self, now_ms: u64) -> (r: Reaction)
        ensures
            old(self)@.edit is None ==> final(self)@ == (WorkbenchView {
                edit: Some(Set::<EditTargetView>::empty()),
                ..old(self)@
            }) && r == nothing(),
            old(self)@.edit is Some ==> {
                let off = persist_spec(WorkbenchView { edit: None, ..old(self)@ });
                if old(self)@.pending_rescan {
                    final(self)@ == (WorkbenchView { pending_rescan: false, last_scan_ms: Some(now_ms), ..off })
                        && r == (Reaction { persist: true, rescan: true })
                } else {
                    final(self)@ == off && r == (Reaction { persist: true, rescan: false })
                }
            },
    {
        let was_editing = self.edit_state.is_on();
        if was_editing {
            self.edit_state = EditState::Off;
            self.persist_state();
            if self.pending_rescan {
                self.pending_rescan = false;
                self.last_scan_ms = Some(now_ms);
                return Reaction { persist: true, rescan: true };
            }
            Reaction { persist: true, rescan: false }
        } else {
            self.edit_state = EditState::On { selection: Vec::new() };
            assert(crate::session::target_views(Seq::<crate::session::EditTarget>::empty()).to_set() =~= Set::<EditTargetView>::empty());
            Reaction { persist: false, rescan: false }
        }
    }

    /// Marks or unmarks an item in edit mode.
    pub fn toggle_edit_selection(&mut self, target: crate::session::EditTarget)
        ensures
            final(self)@ == (WorkbenchView {
                edit: match old(self)@.edit {
                    Some(s) => Some(crate::session::toggle_spec(s, target@)),
                    None => None,
                },
                ..old(self)@
            }),
    {
        self.edit_state.toggle_selection(target);
    }

    /// Takes in the environments a scan found.
    pub fn environments_loaded(&mut self, envs: Vec<Environment>) -> (r: Reaction)
        ensures
            final(self)@ == with_status(
                persist_spec(
                    refresh_spec(
                        WorkbenchView {
                            workspace: WorkspaceView { envs: env_views(envs@), ..old(self)@.workspace },
                            ..old(self)@
                        },
                    ),
                ),
                "Ready"@,
            ),
            r == (Reaction { persist: true, rescan: false }),
    {
        self.workspace.set_all_environments(envs);
        self.refresh_visible_environments();
        self.persist_state();
        self.update_status_with_missing("Ready");
        Reaction { persist: true, rescan: false }
    }

    /// Makes the environment named `name` active; an unknown name changes nothing but the
    /// status line.
    pub fn environment_changed(&mut self, name: String) -> (r: Reaction)
        ensures
            ({
                let k = env_index_of(old(self)@.environments, name@);
                if k >= 0 {
                    final(self)@ == with_status(
                        persist_spec(
                            WorkbenchView {
                                active_environment: k as nat,
                                state: AppStateView { active_environment: Some(name@), ..old(self)@.state },
                                ..old(self)@
                            },
                        ),
                        "Ready"@,
                    ) && r == (Reaction { persist: true, rescan: false })
                } else {
                    final(self)@ == with_status(old(self)@, "Ready"@) && r == nothing()
                }
            }),
    {
        let mut reaction = Reaction { persist: false, rescan: false };
        if let Some(idx) = find_environment(self.environments.as_slice(), name.as_str()) {
            self.active_environment = idx;
            self.state.active_environment = Some(name);
            self.persist_state();
            reaction = Reaction { persist: true, rescan: false };
        }
        self.update_status_with_missing("Ready");
        reaction
    }
}


// ---------------------------------------------------------------------------
// Sending and saving
// ---------------------------------------------------------------------------

/// The draft that goes out: in GraphQL mode a POST of the query and variables as JSON
/// (with a JSON content type unless the headers name one), then the authentication
/// headers added.
pub open spec fn outgoing_draft(w: WorkbenchView) -> DraftView {
    let d = if w.mode == RequestMode::GraphQl {
        let body = crate::options::json_text(crate::options::graphql_view(w.graphql_query, w.graphql_variables));
        let headers = if crate::text::contains(w.draft.headers, "Content-Type"@) {
            w.draft.headers
        } else {
            w.draft.headers + "\nContent-Type: application/json"@
        };
        DraftView { method: crate::model::Method::Post, body, headers, ..w.draft }
    } else {
        w.draft
    };
    DraftView { headers: crate::options::auth_headers(d.headers, w.auth), ..d }
}

pub open spec fn active_env(w: WorkbenchView) -> Option<EnvironmentView> {
    if w.active_environment < w.environments.len() {
        Some(w.environments[w.active_environment as int])
    } else {
        None
    }
}

/// The status line while a request is on its way.
pub open spec fn sending_status(w: WorkbenchView) -> Seq<char> {
    let env = active_env(w);
    status_text(
        "Sending..."@,
        outgoing_draft(w),
        match env {
            Some(e) => Some(e.vars),
            None => None,
        },
        match env {
            Some(e) => Some(e.name),
            None => None,
        },
        extra_inputs(w),
    )
}

pub open spec fn project_outcome_message(o: crate::domain::ProjectChangeOutcome) -> Seq<char> {
    match o {
        crate::domain::ProjectChangeOutcome::AddedAndScan => "Project added. Scanning..."@,
        crate::domain::ProjectChangeOutcome::RemovedAndScan => "Project removed. Rescanning..."@,
        crate::domain::ProjectChangeOutcome::RemovedLastProject => "No projects configured. Add a project folder to start."@,
    }
}

/// A file with one more request at the end.
pub open spec fn added_to(f: HttpFileView, d: DraftView) -> HttpFileView {
    HttpFileView { requests: f.requests.push(d), ..f }
}

/// The workbench after `d` is added at the end of the requests of the file at `path`, and
/// selected there.
pub open spec fn request_added_unstatused(w: WorkbenchView, path: Seq<char>, d: DraftView) -> WorkbenchView {
    let files = w.workspace.files;
    let k = crate::workspace::first_index(crate::workspace::file_paths(files), path);
    WorkbenchView {
        workspace: WorkspaceView {
            files: files.update(k, added_to(files[k], d)),
            selection: Some(RequestIdView::HttpFile { path, index: files[k].requests.len() as usize }),
            ..w.workspace
        },
        ..w
    }
}

/// The workbench after `d` is added at the end of the requests of the file at `path` and
/// selected, the status line saying that it is being saved.
pub open spec fn request_added(w: WorkbenchView, path: Seq<char>, d: DraftView) -> WorkbenchView {
    with_status(request_added_unstatused(w, path, d), "Saving new request..."@)
}

impl Workbench {
    /// The request to send, with the active environment; the status line says it is on its
    /// way.
    pub fn prepare_send(&mut self) -> (r: (RequestDraft, Option<Environment>))
        ensures
            r.0@ == outgoing_draft(old(self)@),
            match active_env(old(self)@) {
                Some(e) => r.1 matches Some(x) && x@ == e,
                None => r.1 is None,
            },
            final(self)@ == (WorkbenchView { status_line: sending_status(old(self)@), ..old(self)@ }),
    {
        let env = if self.active_environment < self.environments.len() {
            Some(self.environments[self.active_environment].clone())
        } else {
            None
        };
        let mut draft = self.draft.clone();
        let mut extras: Vec<String> = Vec::new();
        if self.mode == RequestMode::GraphQl {
            draft.method = crate::model::Method::Post;
            extras.push(self.graphql_query.clone());
            extras.push(self.graphql_variables.clone());
            draft.body = crate::options::build_graphql_body(self.graphql_query.as_str(), self.graphql_variables.as_str());
            let hv = crate::text::chars_of(draft.headers.as_str());
            if !crate::text::contains_sub(&hv, &crate::text::chars_of("Content-Type")) {
                crate::text::push_str(&mut draft.headers, "\nContent-Type: application/json");
            }
        }
        draft.headers = crate::options::apply_auth_headers(draft.headers.as_str(), &self.auth);
        assert(string_views(extras@) =~= extra_inputs(self@));
        let line = match &env {
            Some(e) => status_line("Sending...", &draft, Some(e), extras.as_slice()),
            None => status_line("Sending...", &draft, None, extras.as_slice()),
        };
        self.status_line = line;
        (draft, env)
    }

    /// A response arrived, or the request failed with `Err`.
    pub fn response_ready(&mut self, result: Result<crate::model::ResponsePreview, String>)
        ensures
            final(self).response matches Some(d) && (match result {
                Ok(p) => d.preview == p,
                Err(e) => d.preview.status is None && d.preview.duration_ms is None && d.preview.body is None
                    && d.preview.headers@.len() == 0 && (d.preview.error matches Some(x) && x@ == e@),
            }) && d.body@.raw == crate::response::raw_text_spec(d.preview) && d.body@.syntax
                == crate::response::response_syntax_spec(crate::response::header_views(d.preview.headers@))
                && d.body@.pretty == crate::response::pretty_spec(d.body@.raw, d.body@.syntax),
            final(self)@ == (WorkbenchView {
                response: final(self)@.response,
                response_viewer: viewer_text(old(self)@.response_display, final(self)@.response),
                ..with_status(
                    old(self)@,
                    if result is Ok {
                        "Received response"@
                    } else {
                        "Request failed"@
                    },
                )
            }),
    {
        match result {
            Ok(resp) => {
                self.update_status_with_missing("Received response");
                self.response = Some(crate::response::ResponseData::from_preview(resp));
            },
            Err(err) => {
                self.update_status_with_missing("Request failed");
                self.response = Some(crate::response::ResponseData::from_preview(crate::model::ResponsePreview::error(err)));
            },
        }
        self.update_response_viewer();
    }

    /// The file watcher could not be started.
    pub fn watcher_unavailable(&mut self, message: &str)
        ensures
            final(self)@ == with_status(old(self)@, message@),
    {
        self.update_status_with_missing(message);
    }

    /// Where the draft is to be saved; when that cannot be decided the status line says why.
    pub fn save(&mut self) -> (r: Option<crate::plans::SavePlan>)
        ensures
            match crate::plans::save_plan_spec(old(self)@.workspace, old(self)@.configuration, old(self)@.draft, old(self)@.save_path) {
                Ok(p) => (r matches Some(x) && x@ == p) && final(self)@ == with_status(old(self)@, "Saving..."@),
                Err(e) => r is None && final(self)@ == with_status(old(self)@, crate::plans::save_plan_error_message(e)),
            },
    {
        match crate::plans::build_save_plan(&self.workspace, &self.configuration, &self.draft, self.save_path.as_str()) {
            Ok(plan) => {
                self.update_status_with_missing("Saving...");
                Some(plan)
            },
            Err(e) => {
                let m = e.message();
                self.update_status_with_missing(m.as_str());
                None
            },
        }
    }

    /// A save finished: on success the saved request is selected and the folders rescanned.
    pub fn saved(&mut self, result: Result<(String, usize), String>) -> (r: Reaction)
        ensures
            match result {
                Ok((path, index)) => {
                    let id = RequestIdView::HttpFile { path: path@, index };
                    let w1 = WorkbenchView {
                        workspace: if old(self)@.workspace.configured {
                            WorkspaceView { selection: Some(id), ..old(self)@.workspace }
                        } else {
                            old(self)@.workspace
                        },
                        ..old(self)@
                    };
                    final(self)@ == with_status(refresh_spec(w1), "Saved to "@ + path@) && r == (Reaction {
                        persist: false,
                        rescan: true,
                    })
                },
                Err(e) => final(self)@ == with_status(old(self)@, "Save failed: "@ + e@) && r == nothing(),
            },
    {
        match result {
            Ok((path, index)) => {
                let m = crate::text::concat2("Saved to ", path.as_str());
                self.workspace.set_selection(Some(RequestId::HttpFile { path, index }));
                self.refresh_visible_environments();
                self.update_status_with_missing(m.as_str());
                Reaction { persist: false, rescan: true }
            },
            Err(err) => {
                let m = crate::text::concat2("Save failed: ", err.as_str());
                self.update_status_with_missing(m.as_str());
                Reaction { persist: false, rescan: false }
            },
        }
    }

    /// Adds a new request to the selected file and selects it; gives the file, the request
    /// and its project folder to save, or says in the status line why it cannot.
    pub fn add_request(&mut self) -> (r: Option<(String, RequestDraft, String)>)
        ensures
            match crate::plans::add_request_plan_spec(old(self)@.workspace, old(self)@.configuration.projects) {
                Err(e) => r is None && final(self)@ == with_status(old(self)@, crate::plans::add_plan_error_message(e)),
                Ok(p) => (r matches Some(x) && x.0@ == p.file_path && x.1@ == p.new_draft && x.2@ == p.project_root)
                    && final(self)@ == request_added(old(self)@, p.file_path, p.new_draft),
            },
    {
        match crate::plans::build_add_request_plan(&self.workspace, &self.configuration) {
            Err(e) => {
                let m = e.message();
                self.update_status_with_missing(m.as_str());
                None
            },
            Ok(plan) => {
                let path = plan.file_path;
                let draft = plan.new_draft;
                let root = plan.project_root;
                let ghost w0 = self@;
                proof {
                    crate::workspace::lemma_first_index(crate::workspace::file_paths(w0.workspace.files), path@);
                }
                if let Some(ws) = self.workspace.configured_mut() {
                    if let Some(k) = crate::workspace::find_file(ws.http_files.as_slice(), path.as_str()) {
                        let d = draft.clone();
                        let ghost before = ws.http_files@;
                        let mut file = ws.http_files.remove(k);
                        let ghost fv = file@;
                        file.requests.push(d);
                        let new_idx = file.requests.len() - 1;
                        assert(crate::model::draft_views(file.requests@) =~= fv.requests.push(draft@));
                        assert(file@ == added_to(fv, draft@));
                        ws.http_files.insert(k, file);
                        assert(crate::workspace::file_views(ws.http_files@) =~= crate::workspace::file_views(before).update(k as int, added_to(fv, draft@)));
                        ws.selection = Some(RequestId::HttpFile { path: path.clone(), index: new_idx });
                    }
                }
                assert(self@ == request_added_unstatused(w0, path@, draft@));
                self.update_status_with_missing("Saving new request...");
                Some((path, draft, root))
            },
        }
    }
}


// ---------------------------------------------------------------------------
// Project and global environment folders
// ---------------------------------------------------------------------------

/// The workspace brought in line with a configuration.
pub open spec fn sync_spec(ws: WorkspaceView, c: ConfigView) -> WorkspaceView {
    if c.configured {
        crate::workspace::ensure_configured_spec(ws)
    } else {
        crate::workspace::empty_workspace(false)
    }
}

pub open spec fn root_path_message(e: crate::pathing::RootPathErrorView) -> Seq<char> {
    match e {
        crate::pathing::RootPathErrorView::Empty => "Path cannot be empty"@,
        crate::pathing::RootPathErrorView::CannotResolveCurrentDirectory => "Cannot resolve current directory"@,
        crate::pathing::RootPathErrorView::NotFound(p) => "Path not found: "@ + p,
        crate::pathing::RootPathErrorView::NotDirectory(p) => "Path is not a directory: "@ + p,
    }
}

pub open spec fn root_op_message(e: crate::domain::RootOpError) -> Seq<char> {
    match e {
        crate::domain::RootOpError::ProjectAlreadyExists => "Project already configured"@,
        crate::domain::RootOpError::ProjectMissing => "Project is not configured"@,
        crate::domain::RootOpError::GlobalEnvAlreadyExists => "Global environment folder already configured"@,
        crate::domain::RootOpError::GlobalEnvMissing => "Global environment folder is not configured"@,
    }
}

pub open spec fn global_outcome_message(o: crate::domain::GlobalEnvChangeOutcome) -> Seq<char> {
    match o {
        crate::domain::GlobalEnvChangeOutcome::AddedRescan => "Global env folder added. Scanning..."@,
        crate::domain::GlobalEnvChangeOutcome::AddedIdle => "Global env folder added. Add a project folder to scan requests."@,
        crate::domain::GlobalEnvChangeOutcome::RemovedRescan => "Global env folder removed. Rescanning..."@,
        crate::domain::GlobalEnvChangeOutcome::RemovedIdle => "Global env folder removed. Add a project folder to scan requests."@,
    }
}

/// The folder a user's input names, as `parse_user_input` checks it.
pub open spec fn folder_input_spec(input: Seq<char>, cwd: Option<Seq<char>>, probe: crate::pathing::PathProbe) -> Result<Seq<char>, crate::pathing::RootPathErrorView> {
    match crate::pathing::resolve_input(input, cwd) {
        Ok(p) => crate::session::probe_check(p, probe),
        Err(e) => Err(e),
    }
}

/// Adding the project folder typed in the input: on success the input is cleared, the
/// workspace follows the configuration, the state is saved and the folders are scanned.
pub open spec fn add_project_action(w: WorkbenchView, folder: Result<Seq<char>, crate::pathing::RootPathErrorView>, now_ms: u64) -> (WorkbenchView, Reaction) {
    match folder {
        Err(e) => (with_status(w, root_path_message(e)), nothing()),
        Ok(root) => {
            let (c, res) = crate::domain::add_project_spec(w.configuration, root);
            match res {
                Err(e) => (with_status(w, root_op_message(e)), nothing()),
                Ok(o) => {
                    let w1 = persist_spec(
                        WorkbenchView {
                            project_path_input: Seq::empty(),
                            configuration: c,
                            workspace: sync_spec(w.workspace, c),
                            ..w
                        },
                    );
                    (
                        WorkbenchView { last_scan_ms: Some(now_ms), ..with_status(w1, project_outcome_message(o)) },
                        Reaction { persist: true, rescan: true },
                    )
                },
            }
        },
    }
}

/// Removing a project folder: a selection and marks inside it are dropped first; on
/// success the workspace follows the configuration and the state is saved, then the
/// remaining folders are rescanned, or, when it was the last, what the scans found is
/// forgotten.
pub open spec fn remove_project_action(w: WorkbenchView, root: Seq<char>, now_ms: u64) -> (WorkbenchView, Reaction) {
    let w1 = match w.workspace.selection {
        Some(RequestIdView::HttpFile { path, .. }) => if crate::paths::path_starts_with(path, root) {
            WorkbenchView { workspace: WorkspaceView { selection: None, ..w.workspace }, ..w }
        } else {
            w
        },
        _ => w,
    };
    let w2 = WorkbenchView {
        edit: match w1.edit {
            Some(s) => Some(s.filter(|t: EditTargetView| !crate::session::target_under(t, root))),
            None => None,
        },
        ..w1
    };
    let (c, res) = crate::domain::remove_project_spec(w2.configuration, root);
    match res {
        Err(_) => (w2, nothing()),
        Ok(o) => {
            let w3 = persist_spec(
                refresh_spec(WorkbenchView { configuration: c, workspace: sync_spec(w2.workspace, c), ..w2 }),
            );
            match o {
                crate::domain::ProjectChangeOutcome::AddedAndScan => (w3, Reaction { persist: true, rescan: false }),
                crate::domain::ProjectChangeOutcome::RemovedAndScan => (
                    WorkbenchView { last_scan_ms: Some(now_ms), ..with_status(w3, project_outcome_message(o)) },
                    Reaction { persist: true, rescan: true },
                ),
                crate::domain::ProjectChangeOutcome::RemovedLastProject => (
                    with_status(
                        refresh_spec(
                            WorkbenchView {
                                workspace: crate::workspace::empty_workspace(w3.workspace.configured),
                                ..w3
                            },
                        ),
                        project_outcome_message(o),
                    ),
                    Reaction { persist: true, rescan: false },
                ),
            }
        },
    }
}

/// Adding the global environment folder typed in the input.
pub open spec fn add_global_env_action(w: WorkbenchView, folder: Result<Seq<char>, crate::pathing::RootPathErrorView>, now_ms: u64) -> (WorkbenchView, Reaction) {
    match folder {
        Err(e) => (with_status(w, root_path_message(e)), nothing()),
        Ok(root) => {
            let (c, res) = crate::domain::add_global_env_spec(w.configuration, root);
            match res {
                Err(e) => (with_status(w, root_op_message(e)), nothing()),
                Ok(o) => {
                    let w1 = with_status(
                        persist_spec(
                            WorkbenchView {
                                global_env_path_input: Seq::empty(),
                                configuration: c,
                                workspace: sync_spec(w.workspace, c),
                                ..w
                            },
                        ),
                        global_outcome_message(o),
                    );
                    if o == crate::domain::GlobalEnvChangeOutcome::AddedRescan {
                        (WorkbenchView { last_scan_ms: Some(now_ms), ..w1 }, Reaction { persist: true, rescan: true })
                    } else {
                        (w1, Reaction { persist: true, rescan: false })
                    }
                },
            }
        },
    }
}

/// Removing a global environment folder.
pub open spec fn remove_global_env_action(w: WorkbenchView, root: Seq<char>, now_ms: u64) -> (WorkbenchView, Reaction) {
    let (c, res) = crate::domain::remove_global_env_spec(w.configuration, root);
    match res {
        Err(_) => (w, nothing()),
        Ok(o) => {
            let ws = sync_spec(w.workspace, c);
            let ws2 = if c.configured {
                ws
            } else {
                crate::workspace::empty_workspace(ws.configured)
            };
            let w1 = with_status(
                refresh_spec(persist_spec(WorkbenchView { configuration: c, workspace: ws2, ..w })),
                global_outcome_message(o),
            );
            if o == crate::domain::GlobalEnvChangeOutcome::RemovedRescan {
                (WorkbenchView { last_scan_ms: Some(now_ms), ..w1 }, Reaction { persist: true, rescan: true })
            } else {
                (w1, Reaction { persist: true, rescan: false })
            }
        },
    }
}

impl Workbench {
    /// Adds the project folder typed in the input. `cwd` is the current directory, if it
    /// could be read, and `probe` what the file system says of the folder the input names.
    pub fn add_project(&mut self, cwd: Option<&str>, probe: &crate::pathing::PathProbe, now_ms: u64) -> (r: Reaction)
        ensures
            (final(self)@, r) == add_project_action(
                old(self)@,
                folder_input_spec(old(self)@.project_path_input, crate::pathing::opt_str_view(cwd), *probe),
                now_ms,
            ),
    {
        match crate::pathing::ProjectRoot::parse_user_input(self.project_path_input.as_str(), cwd, probe) {
            Ok(root) => match self.configuration.add_project(root) {
                Ok(outcome) => {
                    self.project_path_input = String::new();
                    self.workspace.sync_with_configuration(&self.configuration);
                    self.persist_state();
                    self.update_status_with_missing(outcome.status_message());
                    self.last_scan_ms = Some(now_ms);
                    Reaction { persist: true, rescan: true }
                },
                Err(err) => {
                    self.update_status_with_missing(err.message());
                    Reaction { persist: false, rescan: false }
                },
            },
            Err(err) => {
                let m = err.message();
                self.update_status_with_missing(m.as_str());
                Reaction { persist: false, rescan: false }
            },
        }
    }

    /// Removes a project folder.
    pub fn remove_project(&mut self, root: &crate::pathing::ProjectRoot, now_ms: u64) -> (r: Reaction)
        ensures
            (final(self)@, r) == remove_project_action(old(self)@, root@, now_ms),
    {
        let clear = match self.workspace.selection() {
            Some(RequestId::HttpFile { path, .. }) => crate::paths::starts_with(path.as_str(), root.as_path()),
            _ => false,
        };
        if clear {
            self.workspace.clear_selection();
        }
        self.edit_state.remove_targets_under(root.as_path());
        let outcome = match self.configuration.remove_project(root) {
            Ok(o) => o,
            Err(_) => {
                return Reaction { persist: false, rescan: false };
            },
        };
        self.workspace.sync_with_configuration(&self.configuration);
        self.refresh_visible_environments();
        self.persist_state();
        match outcome {
            crate::domain::ProjectChangeOutcome::AddedAndScan => Reaction { persist: true, rescan: false },
            crate::domain::ProjectChangeOutcome::RemovedAndScan => {
                self.update_status_with_missing(outcome.status_message());
                self.last_scan_ms = Some(now_ms);
                Reaction { persist: true, rescan: true }
            },
            crate::domain::ProjectChangeOutcome::RemovedLastProject => {
                self.workspace.clear_scan_cache();
                self.refresh_visible_environments();
                self.update_status_with_missing(outcome.status_message());
                Reaction { persist: true, rescan: false }
            },
        }
    }

    /// Adds the global environment folder typed in the input.
    pub fn add_global_env(&mut self, cwd: Option<&str>, probe: &crate::pathing::PathProbe, now_ms: u64) -> (r: Reaction)
        ensures
            (final(self)@, r) == add_global_env_action(
                old(self)@,
                folder_input_spec(old(self)@.global_env_path_input, crate::pathing::opt_str_view(cwd), *probe),
                now_ms,
            ),
    {
        match crate::pathing::GlobalEnvRoot::parse_user_input(self.global_env_path_input.as_str(), cwd, probe) {
            Ok(root) => match self.configuration.add_global_env(root) {
                Ok(outcome) => {
                    self.global_env_path_input = String::new();
                    self.workspace.sync_with_configuration(&self.configuration);
                    self.persist_state();
                    self.update_status_with_missing(outcome.status_message());
                    if outcome == crate::domain::GlobalEnvChangeOutcome::AddedRescan {
                        self.last_scan_ms = Some(now_ms);
                        Reaction { persist: true, rescan: true }
                    } else {
                        Reaction { persist: true, rescan: false }
                    }
                },
                Err(err) => {
                    self.update_status_with_missing(err.message());
                    Reaction { persist: false, rescan: false }
                },
            },
            Err(err) => {
                let m = err.message();
                self.update_status_with_missing(m.as_str());
                Reaction { persist: false, rescan: false }
            },
        }
    }

    /// Removes a global environment folder.
    pub fn remove_global_env(&mut self, root: &crate::pathing::GlobalEnvRoot, now_ms: u64) -> (r: Reaction)
        ensures
            (final(self)@, r) == remove_global_env_action(old(self)@, root@, now_ms),
    {
        let outcome = match self.configuration.remove_global_env(root) {
            Ok(o) => o,
            Err(_) => {
                return Reaction { persist: false, rescan: false };
            },
        };
        self.workspace.sync_with_configuration(&self.configuration);
        if !self.configuration.should_scan() {
            self.workspace.clear_scan_cache();
        }
        self.persist_state();
        self.refresh_visible_environments();
        self.update_status_with_missing(outcome.status_message());
        if outcome == crate::domain::GlobalEnvChangeOutcome::RemovedRescan {
            self.last_scan_ms = Some(now_ms);
            Reaction { persist: true, rescan: true }
        } else {
            Reaction { persist: true, rescan: false }
        }
    }

    /// Moves a file one place up in the sidebar.
    pub fn move_collection_up(&mut self, path: &str)
        ensures
            final(self)@ == (WorkbenchView {
                workspace: if old(self)@.workspace.configured {
                    WorkspaceView { order: crate::workspace::move_up_spec(old(self)@.workspace.order, path@), ..old(self)@.workspace }
                } else {
                    old(self)@.workspace
                },
                ..old(self)@
            }),
    {
        self.workspace.move_collection_up(path);
    }

    /// Moves a file one place down in the sidebar.
    pub fn move_collection_down(&mut self, path: &str)
        ensures
            final(self)@ == (WorkbenchView {
                workspace: if old(self)@.workspace.configured {
                    WorkspaceView { order: crate::workspace::move_down_spec(old(self)@.workspace.order, path@), ..old(self)@.workspace }
                } else {
                    old(self)@.workspace
                },
                ..old(self)@
            }),
    {
        self.workspace.move_collection_down(path);
    }
}


// ---------------------------------------------------------------------------
// Reordering requests
// ---------------------------------------------------------------------------

/// A request moving one place within its file: the file, its requests once moved, and the
/// two places exchanged.
#[derive(Debug)]
pub struct RequestMove {
    pub path: String,
    pub requests: Vec<RequestDraft>,
    pub from: usize,
    pub to: usize,
}

/// Where a request goes when moved up (or down) one place: nowhere when it is first (or
/// last), or its file is not loaded, or no project is configured.
pub open spec fn request_move_spec(w: WorkbenchView, id: RequestIdView, up: bool) -> Option<(Seq<char>, Seq<DraftView>, nat, nat)> {
    match id {
        RequestIdView::HttpFile { path, index } => {
            let files = w.workspace.files;
            let k = crate::workspace::first_index(crate::workspace::file_paths(files), path);
            if up && index == 0 {
                None
            } else if !w.workspace.configured || k < 0 {
                None
            } else {
                let rs = files[k].requests;
                if up {
                    if index < rs.len() {
                        Some((path, crate::workspace::swap_at(rs, index as int, index - 1), index as nat, (index - 1) as nat))
                    } else {
                        None
                    }
                } else if index + 1 < rs.len() {
                    Some((path, crate::workspace::swap_at(rs, index as int, index + 1), index as nat, (index + 1) as nat))
                } else {
                    None
                }
            }
        },
        _ => None,
    }
}

/// A request moved up trades places with the one just above it, and one moved down with
/// the one just below; every other request of its file stays where it was. A move is
/// planned exactly when the request's file is loaded in a configured workspace and the
/// neighbour exists.
pub proof fn lemma_request_move_neighbours(w: WorkbenchView, path: Seq<char>, index: usize, up: bool)
    ensures
        ({
            let files = w.workspace.files;
            let k = crate::workspace::first_index(crate::workspace::file_paths(files), path);
            let id = RequestIdView::HttpFile { path, index };
            let movable = w.workspace.configured && k >= 0 && (if up {
                0 < index < files[k].requests.len()
            } else {
                index + 1 < files[k].requests.len()
            });
            &&& request_move_spec(w, id, up) is Some <==> movable
            &&& request_move_spec(w, id, up) matches Some((p, rs, from, to)) ==> {
                let old_rs = files[k].requests;
                &&& p == path
                &&& files[k].path == path
                &&& from == index
                &&& (if up { to + 1 == from } else { to == from + 1 })
                &&& rs.len() == old_rs.len()
                &&& rs[to as int] == old_rs[from as int]
                &&& rs[from as int] == old_rs[to as int]
                &&& forall|j: int| 0 <= j < rs.len() && j != from && j != to ==> rs[j] == old_rs[j]
            }
        }),
{
    let files = w.workspace.files;
    crate::workspace::lemma_first_index(crate::workspace::file_paths(files), path);
}

/// A marked request follows the move of its request.
pub open spec fn swap_target(t: EditTargetView, path: Seq<char>, a: usize, b: usize) -> EditTargetView {
    match t {
        EditTargetView::Request(id) => EditTargetView::Request(
            crate::workspace::swap_selection_spec(Some(id), path, a, b)->0,
        ),
        _ => t,
    }
}

/// The workbench once a move is written: the file's requests exchange places, and a
/// selection or marks on them follow; when the write failed the status line says so.
pub open spec fn finish_move_spec(w: WorkbenchView, path: Seq<char>, from: usize, to: usize, error: Option<Seq<char>>) -> WorkbenchView {
    match error {
        Some(e) => with_status(w, "Failed to reorder "@ + path + ": "@ + e),
        None => {
            let files = w.workspace.files;
            let k = crate::workspace::first_index(crate::workspace::file_paths(files), path);
            let files2 = if k >= 0 && from < files[k].requests.len() && to < files[k].requests.len() {
                files.update(
                    k,
                    crate::model::HttpFileView {
                        requests: crate::workspace::swap_at(files[k].requests, from as int, to as int),
                        ..files[k]
                    },
                )
            } else {
                files
            };
            WorkbenchView {
                workspace: if w.workspace.configured {
                    WorkspaceView {
                        files: files2,
                        selection: crate::workspace::swap_selection_spec(w.workspace.selection, path, from, to),
                        ..w.workspace
                    }
                } else {
                    w.workspace
                },
                edit: match w.edit {
                    Some(s) => Some(s.map(|t: EditTargetView| swap_target(t, path, from, to))),
                    None => None,
                },
                ..w
            }
        },
    }
}

fn swap_drafts(v: &mut Vec<RequestDraft>, a: usize, b: usize)
    requires
        a < old(v)@.len(),
        b < old(v)@.len(),
    ensures
        crate::model::draft_views(final(v)@) == crate::workspace::swap_at(crate::model::draft_views(old(v)@), a as int, b as int),
{
    let ghost before = v@;
    let x = v[a].clone();
    let y = v[b].clone();
    v.set(a, y);
    v.set(b, x);
    assert(crate::model::draft_views(v@) =~= crate::workspace::swap_at(crate::model::draft_views(before), a as int, b as int));
}

fn swap_target_exec(t: &crate::session::EditTarget, path: &str, a: usize, b: usize) -> (r: crate::session::EditTarget)
    ensures
        r@ == swap_target(t@, path@, a, b),
{
    match t {
        crate::session::EditTarget::Request(id) => {
            let mut sel = Some(id.clone());
            crate::workspace::swap_request_indices_in_selection_http(&mut sel, path, a, b);
            match sel {
                Some(x) => crate::session::EditTarget::Request(x),
                None => crate::session::EditTarget::Request(id.clone()),
            }
        },
        crate::session::EditTarget::Collection(p) => crate::session::EditTarget::Collection(p.clone()),
    }
}


/// The marks after the requests at `a` and `b` of the file at `path` traded places: a mark
/// on one moves to the other; nothing happens outside edit mode.
pub fn swap_request_indices_in_edit_selection_http(edit_state: &mut EditState, path: &str, a: usize, b: usize)
    ensures
        final(edit_state)@ == match old(edit_state)@ {
            Some(s) => Some(s.map(|t: EditTargetView| swap_target(t, path@, a, b))),
            None => None::<Set<EditTargetView>>,
        },
{
    if let EditState::On { selection } = edit_state {
        let ghost before = crate::session::target_views(selection@);
        let mut mapped: Vec<crate::session::EditTarget> = Vec::new();
        let mut j: usize = 0;
        while j < selection.len()
            invariant
                j <= selection@.len(),
                before == crate::session::target_views(selection@),
                crate::session::target_views(mapped@) == before.take(j as int).map_values(
                    |t: EditTargetView| swap_target(t, path@, a, b),
                ),
            decreases selection.len() - j,
        {
            let x = swap_target_exec(&selection[j], path, a, b);
            let ghost mb = crate::session::target_views(mapped@);
            mapped.push(x);
            assert(crate::session::target_views(mapped@) =~= mb.push(x@));
            assert(before.take(j + 1).map_values(|t: EditTargetView| swap_target(t, path@, a, b))
                =~= before.take(j as int).map_values(|t: EditTargetView| swap_target(t, path@, a, b)).push(
                swap_target(before[j as int], path@, a, b),
            ));
            j = j + 1;
        }
        assert(before.take(before.len() as int) =~= before);
        let ghost mv_seq = before.map_values(|t: EditTargetView| swap_target(t, path@, a, b));
        assert(mv_seq.to_set() =~= before.to_set().map(|t: EditTargetView| swap_target(t, path@, a, b))) by {
            assert forall|y: EditTargetView| mv_seq.to_set().contains(y) implies before.to_set().map(
                |t: EditTargetView| swap_target(t, path@, a, b),
            ).contains(y) by {
                let i = choose|i: int| 0 <= i < mv_seq.len() && mv_seq[i] == y;
                assert(before.to_set().contains(before[i]));
            }
            assert forall|y: EditTargetView| before.to_set().map(
                |t: EditTargetView| swap_target(t, path@, a, b),
            ).contains(y) implies mv_seq.to_set().contains(y) by {
                let t = choose|t: EditTargetView| before.to_set().contains(t) && swap_target(t, path@, a, b) == y;
                let i = choose|i: int| 0 <= i < before.len() && before[i] == t;
                assert(mv_seq[i] == y);
            }
        }
        *selection = mapped;
    }
}

impl Workbench {
    /// The move of a request one place up (or down), to be written to its file.
    pub fn plan_request_move(&self, id: &RequestId, up: bool) -> (r: Option<RequestMove>)
        ensures
            match request_move_spec(self@, id@, up) {
                Some((path, rs, from, to)) => r matches Some(m) && m.path@ == path && crate::model::draft_views(m.requests@) == rs
                    && m.from == from && m.to == to,
                None => r is None,
            },
    {
        if let RequestId::HttpFile { path, index } = id {
            if up && *index == 0 {
                return None;
            }
            let ws = match self.workspace.configured() {
                Some(ws) => ws,
                None => {
                    return None;
                },
            };
            let k = match crate::workspace::find_file(ws.http_files.as_slice(), path.as_str()) {
                Some(k) => k,
                None => {
                    return None;
                },
            };
            let n = ws.http_files[k].requests.len();
            let to = if up {
                if *index < n {
                    *index - 1
                } else {
                    return None;
                }
            } else {
                if *index < n && *index + 1 < n {
                    *index + 1
                } else {
                    return None;
                }
            };
            let mut requests = crate::model::clone_drafts(&ws.http_files[k].requests);
            swap_drafts(&mut requests, *index, to);
            Some(RequestMove { path: path.clone(), requests, from: *index, to })
        } else {
            None
        }
    }

    /// Takes in the outcome of writing a move: `Err` when the file could not be written.
    pub fn finish_request_move(&mut self, mv: &RequestMove, result: Result<(), String>)
        ensures
            final(self)@ == finish_move_spec(
                old(self)@,
                mv.path@,
                mv.from,
                mv.to,
                match result {
                    Ok(_) => None,
                    Err(e) => Some(e@),
                },
            ),
    {
        match result {
            Err(e) => {
                let mut m = String::from_str("Failed to reorder ");
                crate::text::push_str(&mut m, mv.path.as_str());
                crate::text::push_str(&mut m, ": ");
                crate::text::push_str(&mut m, e.as_str());
                self.update_status_with_missing(m.as_str());
            },
            Ok(()) => {
                let ghost w = self@;
                if let Some(ws) = self.workspace.configured_mut() {
                    if let Some(k) = crate::workspace::find_file(ws.http_files.as_slice(), mv.path.as_str()) {
                        let n = ws.http_files[k].requests.len();
                        if mv.from < n && mv.to < n {
                            let ghost files = crate::workspace::file_views(ws.http_files@);
                            let mut file = ws.http_files.remove(k);
                            swap_drafts(&mut file.requests, mv.from, mv.to);
                            ws.http_files.insert(k, file);
                            assert(crate::workspace::file_views(ws.http_files@) =~= files.update(
                                k as int,
                                crate::model::HttpFileView {
                                    requests: crate::workspace::swap_at(files[k as int].requests, mv.from as int, mv.to as int),
                                    ..files[k as int]
                                },
                            ));
                        }
                    }
                    crate::workspace::swap_request_indices_in_selection_http(&mut ws.selection, mv.path.as_str(), mv.from, mv.to);
                }
                swap_request_indices_in_edit_selection_http(&mut self.edit_state, mv.path.as_str(), mv.from, mv.to);
            },
        }
    }
}


// ---------------------------------------------------------------------------
// Deleting what is marked
// ---------------------------------------------------------------------------

/// The files marked for deletion.
pub open spec fn marked_files(sel: Set<EditTargetView>) -> Set<Seq<char>> {
    Set::new(|p: Seq<char>| sel.contains(EditTargetView::Collection(p)))
}

/// The places of the marked requests of file `p`.
pub open spec fn marked_indices(sel: Set<EditTargetView>, p: Seq<char>) -> Set<usize> {
    Set::new(|i: usize| sel.contains(EditTargetView::Request(RequestIdView::HttpFile { path: p, index: i })))
}

/// The loaded files, not themselves marked, that have marked requests.
pub open spec fn files_to_rewrite(sel: Set<EditTargetView>, files: Seq<crate::model::HttpFileView>) -> Set<Seq<char>> {
    Set::new(
        |p: Seq<char>|
            (exists|i: usize| sel.contains(EditTargetView::Request(RequestIdView::HttpFile { path: p, index: i })))
                && !sel.contains(EditTargetView::Collection(p)) && crate::workspace::file_paths(files).contains(p),
    )
}

/// The requests without those at the places in `idx`.
pub open spec fn remove_indices(rs: Seq<DraftView>, idx: Set<usize>) -> Seq<DraftView>
    decreases rs.len(),
{
    if rs.len() == 0 {
        rs
    } else {
        remove_indices(rs.drop_last(), idx) + (if idx.contains((rs.len() - 1) as usize) {
            Seq::empty()
        } else {
            seq![rs.last()]
        })
    }
}

/// The requests of the first loaded file at `p`.
pub open spec fn requests_of(files: Seq<crate::model::HttpFileView>, p: Seq<char>) -> Seq<DraftView> {
    files[crate::workspace::first_index(crate::workspace::file_paths(files), p)].requests
}

/// What deleting the marked items does to disk: the marked files, in ascending order, are
/// removed, and each other loaded file with marked requests, in ascending order, is
/// written without them.
#[derive(Debug)]
pub struct DeletePlan {
    pub remove_files: Vec<String>,
    pub rewrites: Vec<(String, Vec<RequestDraft>)>,
}

pub open spec fn rewrite_paths(r: Seq<(String, Vec<RequestDraft>)>) -> Seq<Seq<char>> {
    r.map_values(|x: (String, Vec<RequestDraft>)| x.0@)
}

/// A plan deletes what `sel` marks among `files`.
pub open spec fn delete_plan_ok(p: DeletePlan, sel: Set<EditTargetView>, files: Seq<crate::model::HttpFileView>) -> bool {
    &&& crate::status::strictly_sorted(string_views(p.remove_files@))
    &&& string_views(p.remove_files@).to_set() == marked_files(sel)
    &&& crate::status::strictly_sorted(rewrite_paths(p.rewrites@))
    &&& rewrite_paths(p.rewrites@).to_set() == files_to_rewrite(sel, files)
    &&& forall|k: int|
        0 <= k < p.rewrites@.len() ==> crate::model::draft_views(#[trigger] p.rewrites@[k].1@) == remove_indices(
            requests_of(files, p.rewrites@[k].0@),
            marked_indices(sel, p.rewrites@[k].0@),
        )
}

/// Whether `sel` marks `t`.
fn marks(sel: &Vec<crate::session::EditTarget>, t: &crate::session::EditTarget) -> (r: bool)
    ensures
        r == crate::session::target_views(sel@).to_set().contains(t@),
{
    let ghost sv = crate::session::target_views(sel@);
    let mut i: usize = 0;
    while i < sel.len()
        invariant
            i <= sel@.len(),
            sv == crate::session::target_views(sel@),
            forall|j: int| 0 <= j < i ==> sv[j] != t@,
        decreases sel.len() - i,
    {
        if sel[i] == *t {
            assert(sv[i as int] == t@);
            return true;
        }
        i = i + 1;
    }
    proof {
        if sv.to_set().contains(t@) {
            let j = choose|j: int| 0 <= j < sv.len() && sv[j] == t@;
        }
    }
    false
}

/// The requests of a file without the marked ones.
fn without_marked(sel: &Vec<crate::session::EditTarget>, path: &String, rs: &Vec<RequestDraft>) -> (r: Vec<RequestDraft>)
    ensures
        crate::model::draft_views(r@) == remove_indices(
            crate::model::draft_views(rs@),
            marked_indices(crate::session::target_views(sel@).to_set(), path@),
        ),
{
    let ghost dv = crate::model::draft_views(rs@);
    let ghost idx = marked_indices(crate::session::target_views(sel@).to_set(), path@);
    let mut out: Vec<RequestDraft> = Vec::new();
    let mut j: usize = 0;
    while j < rs.len()
        invariant
            j <= rs@.len(),
            dv == crate::model::draft_views(rs@),
            idx == marked_indices(crate::session::target_views(sel@).to_set(), path@),
            crate::model::draft_views(out@) == remove_indices(dv.take(j as int), idx),
        decreases rs.len() - j,
    {
        let ghost t = dv.take(j + 1);
        assert(t.drop_last() =~= dv.take(j as int));
        assert(t.last() == rs@[j as int]@);
        let probe = crate::session::EditTarget::Request(RequestId::HttpFile { path: path.clone(), index: j });
        let marked = marks(sel, &probe);
        assert(marked == idx.contains(j));
        let ghost before = crate::model::draft_views(out@);
        if !marked {
            let d = rs[j].clone();
            out.push(d);
            assert(crate::model::draft_views(out@) =~= before + seq![rs@[j as int]@]);
        } else {
            assert(remove_indices(t, idx) =~= before);
        }
        j = j + 1;
    }
    assert(dv.take(dv.len() as int) =~= dv);
    out
}

impl Workbench {
    /// What deleting the marked items writes and removes; nothing when edit mode is off,
    /// nothing is marked, or no project is configured.
    pub fn plan_delete(&self) -> (r: Option<DeletePlan>)
        ensures
            match r {
                Some(p) => self@.workspace.configured && (self@.edit matches Some(sel) && !sel.is_empty()
                    && delete_plan_ok(p, sel, self@.workspace.files)),
                None => !self@.workspace.configured || !(self@.edit matches Some(sel) && !sel.is_empty()),
            },
    {
        let selection = match &self.edit_state {
            EditState::On { selection } => selection,
            EditState::Off => {
                return None;
            },
        };
        if selection.len() == 0 {
            assert(crate::session::target_views(selection@).to_set() =~= Set::<EditTargetView>::empty());
            return None;
        }
        proof {
            let sv = crate::session::target_views(selection@);
            assert(sv.to_set().contains(sv[0]));
        }
        let ws = match self.workspace.configured() {
            Some(ws) => ws,
            None => {
                return None;
            },
        };
        let ghost sel = crate::session::target_views(selection@).to_set();
        let ghost sv = crate::session::target_views(selection@);
        let ghost files = crate::workspace::file_views(ws.http_files@);
        // the marked files
        let mut removed: Vec<Vec<char>> = Vec::new();
        let mut i: usize = 0;
        while i < selection.len()
            invariant
                i <= selection@.len(),
                sv == crate::session::target_views(selection@),
                crate::status::strictly_sorted(crate::text::views(removed@)),
                crate::text::views(removed@).to_set() == Set::new(
                    |p: Seq<char>| exists|j: int| 0 <= j < i && sv[j] == EditTargetView::Collection(p),
                ),
            decreases selection.len() - i,
        {
            let ghost before = crate::text::views(removed@).to_set();
            let ghost cur = sv[i as int];
            assert(cur == selection@[i as int]@);
            if let crate::session::EditTarget::Collection(p) = &selection[i] {
                crate::status::insert_sorted_unique(&mut removed, crate::text::chars_of(p.as_str()));
            }
            let ghost after = crate::text::views(removed@).to_set();
            assert(after == match cur {
                EditTargetView::Collection(q) => before.insert(q),
                _ => before,
            });
            assert(after =~= Set::new(
                |p: Seq<char>| exists|j: int| 0 <= j < i + 1 && sv[j] == EditTargetView::Collection(p),
            )) by {
                assert forall|p: Seq<char>|
                    #![trigger after.contains(p)]
                    after.contains(p) <==> (exists|j: int|
                        0 <= j < i + 1 && sv[j] == EditTargetView::Collection(p)) by {
                    if cur == EditTargetView::Collection(p) {
                        assert(sv[i as int] == EditTargetView::Collection(p));
                    }
                    if exists|j: int| 0 <= j < i + 1 && sv[j] == EditTargetView::Collection(p) {
                        let j = choose|j: int| 0 <= j < i + 1 && sv[j] == EditTargetView::Collection(p);
                        if j < i {
                            assert(exists|j2: int| 0 <= j2 < i && sv[j2] == EditTargetView::Collection(p));
                        }
                    }
                    if exists|j: int| 0 <= j < i && sv[j] == EditTargetView::Collection(p) {
                        let j = choose|j: int| 0 <= j < i && sv[j] == EditTargetView::Collection(p);
                        assert(exists|j2: int| 0 <= j2 < i + 1 && sv[j2] == EditTargetView::Collection(p));
                    }
                }
            }
            i = i + 1;
        }
        assert(crate::text::views(removed@).to_set() =~= marked_files(sel)) by {
            assert forall|p: Seq<char>|
                #![trigger marked_files(sel).contains(p)]
                crate::text::views(removed@).to_set().contains(p) <==> marked_files(sel).contains(p) by {
                if sel.contains(EditTargetView::Collection(p)) {
                    let j = choose|j: int| 0 <= j < sv.len() && sv[j] == EditTargetView::Collection(p);
                    assert(exists|j2: int| 0 <= j2 < sv.len() && sv[j2] == EditTargetView::Collection(p));
                }
            }
        }
        let mut remove_files: Vec<String> = Vec::new();
        let mut k: usize = 0;
        while k < removed.len()
            invariant
                k <= removed@.len(),
                string_views(remove_files@) == crate::text::views(removed@).take(k as int),
            decreases removed.len() - k,
        {
            let s = crate::text::string_of(&removed[k]);
            let ghost b = string_views(remove_files@);
            remove_files.push(s);
            assert(string_views(remove_files@) =~= b.push(s@));
            assert(crate::text::views(removed@).take(k + 1) =~= crate::text::views(removed@).take(k as int).push(removed@[k as int]@));
            k = k + 1;
        }
        assert(crate::text::views(removed@).take(removed@.len() as int) =~= crate::text::views(removed@));
        // the files with marked requests
        let mut paths: Vec<Vec<char>> = Vec::new();
        let mut i: usize = 0;
        while i < selection.len()
            invariant
                i <= selection@.len(),
                sv == crate::session::target_views(selection@),
                sel == sv.to_set(),
                files == crate::workspace::file_views(ws.http_files@),
                crate::status::strictly_sorted(crate::text::views(paths@)),
                crate::text::views(paths@).to_set() == Set::new(
                    |p: Seq<char>|
                        (exists|j: int, x: usize|
                            0 <= j < i && sv[j] == EditTargetView::Request(RequestIdView::HttpFile { path: p, index: x }))
                            && !sel.contains(EditTargetView::Collection(p)) && crate::workspace::file_paths(files).contains(p),
                ),
            decreases selection.len() - i,
        {
            let ghost before = crate::text::views(paths@).to_set();
            let ghost cur = sv[i as int];
            assert(cur == selection@[i as int]@);
            if let crate::session::EditTarget::Request(RequestId::HttpFile { path, index }) = &selection[i] {
                let coll = crate::session::EditTarget::Collection(path.clone());
                let file_marked = marks(selection, &coll);
                let loaded = match crate::workspace::find_file(ws.http_files.as_slice(), path.as_str()) {
                    Some(fi) => {
                        assert(crate::workspace::file_paths(files)[fi as int] == path@);
                        true
                    },
                    None => false,
                };
                assert(loaded == crate::workspace::file_paths(files).contains(path@));
                if !file_marked && loaded {
                    crate::status::insert_sorted_unique(&mut paths, crate::text::chars_of(path.as_str()));
                }
            }
            let ghost after = crate::text::views(paths@).to_set();
            assert(after == match cur {
                EditTargetView::Request(RequestIdView::HttpFile { path: q, .. }) => if !sel.contains(
                    EditTargetView::Collection(q),
                ) && crate::workspace::file_paths(files).contains(q) {
                    before.insert(q)
                } else {
                    before
                },
                _ => before,
            });
            assert(crate::text::views(paths@).to_set() =~= Set::new(
                |p: Seq<char>|
                    (exists|j: int, x: usize|
                        0 <= j < i + 1 && sv[j] == EditTargetView::Request(RequestIdView::HttpFile { path: p, index: x }))
                        && !sel.contains(EditTargetView::Collection(p)) && crate::workspace::file_paths(files).contains(p),
            )) by {
                assert forall|p: Seq<char>|
                    #![trigger after.contains(p)]
                    after.contains(p) <==> ((exists|j: int, x: usize|
                        0 <= j < i + 1 && sv[j] == EditTargetView::Request(RequestIdView::HttpFile { path: p, index: x }))
                        && !sel.contains(EditTargetView::Collection(p)) && crate::workspace::file_paths(files).contains(p)) by {
                    if let EditTargetView::Request(RequestIdView::HttpFile { path: q, index: x }) = cur {
                        if q == p {
                            assert(sv[i as int] == EditTargetView::Request(RequestIdView::HttpFile { path: p, index: x }));
                        }
                    }
                    if (exists|j: int, x: usize|
                        0 <= j < i + 1 && sv[j] == EditTargetView::Request(RequestIdView::HttpFile { path: p, index: x })) {
                        let (j, x) = choose|j: int, x: usize|
                            0 <= j < i + 1 && sv[j] == EditTargetView::Request(RequestIdView::HttpFile { path: p, index: x });
                        if j < i {
                            assert(exists|j2: int, x2: usize|
                                0 <= j2 < i && sv[j2] == EditTargetView::Request(RequestIdView::HttpFile { path: p, index: x2 }));
                        }
                    }
                    if (exists|j: int, x: usize|
                        0 <= j < i && sv[j] == EditTargetView::Request(RequestIdView::HttpFile { path: p, index: x })) {
                        let (j, x) = choose|j: int, x: usize|
                            0 <= j < i && sv[j] == EditTargetView::Request(RequestIdView::HttpFile { path: p, index: x });
                        assert(exists|j2: int, x2: usize|
                            0 <= j2 < i + 1 && sv[j2] == EditTargetView::Request(RequestIdView::HttpFile { path: p, index: x2 }));
                    }
                }
            }
            i = i + 1;
        }
        assert(crate::text::views(paths@).to_set() =~= files_to_rewrite(sel, files)) by {
            assert forall|p: Seq<char>|
                #![trigger files_to_rewrite(sel, files).contains(p)]
                crate::text::views(paths@).to_set().contains(p) <==> files_to_rewrite(sel, files).contains(p) by {
                if (exists|j: int, x: usize|
                    0 <= j < sv.len() && sv[j] == EditTargetView::Request(RequestIdView::HttpFile { path: p, index: x })) {
                    let (j, x) = choose|j: int, x: usize|
                        0 <= j < sv.len() && sv[j] == EditTargetView::Request(RequestIdView::HttpFile { path: p, index: x });
                    assert(sel.contains(EditTargetView::Request(RequestIdView::HttpFile { path: p, index: x })));
                }
                if (exists|x: usize| sel.contains(EditTargetView::Request(RequestIdView::HttpFile { path: p, index: x }))) {
                    let x = choose|x: usize| sel.contains(EditTargetView::Request(RequestIdView::HttpFile { path: p, index: x }));
                    let j = choose|j: int| 0 <= j < sv.len() && sv[j] == EditTargetView::Request(RequestIdView::HttpFile { path: p, index: x });
                    assert(exists|j2: int, x2: usize|
                        0 <= j2 < sv.len() && sv[j2] == EditTargetView::Request(RequestIdView::HttpFile { path: p, index: x2 }));
                }
            }
        }
        let mut rewrites: Vec<(String, Vec<RequestDraft>)> = Vec::new();
        let mut k: usize = 0;
        while k < paths.len()
            invariant
                k <= paths@.len(),
                sel == crate::session::target_views(selection@).to_set(),
                files == crate::workspace::file_views(ws.http_files@),
                crate::text::views(paths@).to_set() == files_to_rewrite(sel, files),
                rewrite_paths(rewrites@) == crate::text::views(paths@).take(k as int),
                forall|m: int|
                    0 <= m < rewrites@.len() ==> crate::model::draft_views(#[trigger] rewrites@[m].1@) == remove_indices(
                        requests_of(files, rewrites@[m].0@),
                        marked_indices(sel, rewrites@[m].0@),
                    ),
            decreases paths.len() - k,
        {
            let p = crate::text::string_of(&paths[k]);
            assert(crate::text::views(paths@)[k as int] == paths@[k as int]@);
            assert(crate::text::views(paths@).to_set().contains(paths@[k as int]@));
            let f = crate::workspace::find_file(ws.http_files.as_slice(), p.as_str());
            let rs = match f {
                Some(fi) => without_marked(selection, &p, &ws.http_files[fi].requests),
                None => Vec::new(),
            };
            let ghost b = rewrites@;
            let ghost pv = p@;
            rewrites.push((p, rs));
            assert(rewrite_paths(rewrites@) =~= rewrite_paths(b).push(pv));
            assert(crate::text::views(paths@).take(k + 1) =~= crate::text::views(paths@).take(k as int).push(paths@[k as int]@));
            assert(rewrite_paths(rewrites@) =~= crate::text::views(paths@).take(k + 1));
            assert forall|m: int|
                0 <= m < rewrites@.len() implies crate::model::draft_views(#[trigger] rewrites@[m].1@) == remove_indices(
                    requests_of(files, rewrites@[m].0@),
                    marked_indices(sel, rewrites@[m].0@),
                ) by {
                if m < b.len() {
                    assert(rewrites@[m] == b[m]);
                }
            }
            k = k + 1;
        }
        assert(crate::text::views(paths@).take(paths@.len() as int) =~= crate::text::views(paths@));
        Some(DeletePlan { remove_files, rewrites })
    }
}


/// The files with the requests of file `p` replaced by `rs`.
pub open spec fn set_requests(files: Seq<crate::model::HttpFileView>, p: Seq<char>, rs: Seq<DraftView>) -> Seq<crate::model::HttpFileView> {
    let i = crate::workspace::first_index(crate::workspace::file_paths(files), p);
    if i >= 0 {
        files.update(i, crate::model::HttpFileView { requests: rs, ..files[i] })
    } else {
        files
    }
}

pub open spec fn opt_views(v: Seq<Option<String>>) -> Seq<Option<Seq<char>>> {
    v.map_values(|o: Option<String>| crate::cli::opt_seq(o))
}

pub open spec fn rewrite_views(r: Seq<(String, Vec<RequestDraft>)>) -> Seq<(Seq<char>, Seq<DraftView>)> {
    r.map_values(|x: (String, Vec<RequestDraft>)| (x.0@, crate::model::draft_views(x.1@)))
}

/// The files after the first `k` rewrites, each applied when it was written.
pub open spec fn apply_rewrites(
    files: Seq<crate::model::HttpFileView>,
    rewrites: Seq<(Seq<char>, Seq<DraftView>)>,
    errs: Seq<Option<Seq<char>>>,
    k: int,
) -> Seq<crate::model::HttpFileView>
    decreases k,
{
    if k <= 0 {
        files
    } else {
        let f = apply_rewrites(files, rewrites, errs, k - 1);
        if errs[k - 1] is None {
            set_requests(f, rewrites[k - 1].0, rewrites[k - 1].1)
        } else {
            f
        }
    }
}

/// The messages of the failed rewrites among the first `k`.
pub open spec fn rewrite_errors(rewrites: Seq<(Seq<char>, Seq<DraftView>)>, errs: Seq<Option<Seq<char>>>, k: int) -> Seq<Seq<char>>
    decreases k,
{
    if k <= 0 {
        Seq::empty()
    } else {
        rewrite_errors(rewrites, errs, k - 1) + match errs[k - 1] {
            Some(e) => seq!["Failed to update "@ + rewrites[k - 1].0 + ": "@ + e],
            None => Seq::empty(),
        }
    }
}

/// The messages of the failed removals among the first `k`.
pub open spec fn removal_errors(paths: Seq<Seq<char>>, errs: Seq<Option<Seq<char>>>, k: int) -> Seq<Seq<char>>
    decreases k,
{
    if k <= 0 {
        Seq::empty()
    } else {
        removal_errors(paths, errs, k - 1) + match errs[k - 1] {
            Some(e) => seq!["Failed to delete "@ + paths[k - 1] + ": "@ + e],
            None => Seq::empty(),
        }
    }
}

/// The files whose path `gone` does not hold.
pub open spec fn without_paths(files: Seq<crate::model::HttpFileView>, gone: Seq<Seq<char>>) -> Seq<crate::model::HttpFileView>
    decreases files.len(),
{
    if files.len() == 0 {
        files
    } else {
        without_paths(files.drop_last(), gone) + (if gone.contains(files.last().path) {
            Seq::empty()
        } else {
            seq![files.last()]
        })
    }
}

/// The entries of `order` that `gone` does not hold.
pub open spec fn drop_listed(order: Seq<Seq<char>>, gone: Seq<Seq<char>>) -> Seq<Seq<char>>
    decreases order.len(),
{
    if order.len() == 0 {
        order
    } else {
        drop_listed(order.drop_last(), gone) + (if gone.contains(order.last()) {
            Seq::empty()
        } else {
            seq![order.last()]
        })
    }
}

/// The selection kept: a request of a file that is gone, or past its end, is dropped.
pub open spec fn selection_kept(sel: Option<RequestIdView>, files: Seq<crate::model::HttpFileView>) -> Option<RequestIdView> {
    match sel {
        Some(RequestIdView::HttpFile { path, index }) => {
            let i = crate::workspace::first_index(crate::workspace::file_paths(files), path);
            if i >= 0 && index < files[i].requests.len() {
                sel
            } else {
                None
            }
        },
        _ => sel,
    }
}

/// The workbench once the deletion is carried out: written files take their new requests,
/// removed files leave the workspace and the order, a selection that is gone is dropped,
/// the marks are cleared and the status line reports success or the failures.
pub open spec fn finish_delete_spec(
    w: WorkbenchView,
    remove_files: Seq<Seq<char>>,
    rewrites: Seq<(Seq<char>, Seq<DraftView>)>,
    rewrite_errs: Seq<Option<Seq<char>>>,
    remove_errs: Seq<Option<Seq<char>>>,
) -> WorkbenchView {
    if !w.workspace.configured {
        w
    } else {
        let files1 = apply_rewrites(w.workspace.files, rewrites, rewrite_errs, rewrites.len() as int);
        let files2 = without_paths(files1, remove_files);
        let errors = rewrite_errors(rewrites, rewrite_errs, rewrites.len() as int) + removal_errors(
            remove_files,
            remove_errs,
            remove_files.len() as int,
        );
        let order = if remove_files.len() > 0 {
            drop_listed(w.workspace.order, remove_files)
        } else {
            w.workspace.order
        };
        let w1 = WorkbenchView {
            workspace: WorkspaceView {
                files: files2,
                order,
                selection: selection_kept(w.workspace.selection, files2),
                ..w.workspace
            },
            edit: match w.edit {
                Some(_) => Some(Set::empty()),
                None => None,
            },
            ..w
        };
        refresh_spec(
            with_status(
                w1,
                if errors.len() == 0 {
                    "Deleted selection"@
                } else {
                    crate::text::join(errors, "; "@)
                },
            ),
        )
    }
}


fn contains_str(v: &Vec<String>, x: &str) -> (r: bool)
    ensures
        r == string_views(v@).contains(x@),
{
    let mut i: usize = 0;
    while i < v.len()
        invariant
            i <= v@.len(),
            forall|j: int| 0 <= j < i ==> v@[j]@ != x@,
        decreases v.len() - i,
    {
        if crate::text::str_eq(v[i].as_str(), x) {
            assert(string_views(v@)[i as int] == x@);
            return true;
        }
        i = i + 1;
    }
    proof {
        if string_views(v@).contains(x@) {
            let k = choose|k: int| 0 <= k < v@.len() && string_views(v@)[k] == x@;
            assert(v@[k]@ == x@);
        }
    }
    false
}

fn message3(a: &str, b: &str, c: &str, d: &str) -> (m: Vec<char>)
    ensures
        m@ == a@ + b@ + c@ + d@,
{
    let mut m = crate::text::chars_of(a);
    crate::text::append_chars(&mut m, &crate::text::chars_of(b));
    crate::text::append_chars(&mut m, &crate::text::chars_of(c));
    crate::text::append_chars(&mut m, &crate::text::chars_of(d));
    m
}

impl Workbench {
    /// Takes in what happened when the deletion was carried out: for each rewrite and each
    /// removal of the plan, `None` when it worked and the error otherwise.
    pub fn finish_delete(&mut self, plan: &DeletePlan, rewrite_errs: &[Option<String>], remove_errs: &[Option<String>])
        requires
            rewrite_errs@.len() == plan.rewrites@.len(),
            remove_errs@.len() == plan.remove_files@.len(),
        ensures
            final(self)@ == finish_delete_spec(
                old(self)@,
                string_views(plan.remove_files@),
                rewrite_views(plan.rewrites@),
                opt_views(rewrite_errs@),
                opt_views(remove_errs@),
            ),
    {
        let ghost w = self@;
        let ghost rv = rewrite_views(plan.rewrites@);
        let ghost re = opt_views(rewrite_errs@);
        let ghost gone = string_views(plan.remove_files@);
        let ghost de = opt_views(remove_errs@);
        let mut errors: Vec<Vec<char>> = Vec::new();
        let ws = match self.workspace.configured_mut() {
            Some(ws) => ws,
            None => {
                return;
            },
        };
        let ghost files0 = crate::workspace::file_views(ws.http_files@);
        let mut k: usize = 0;
        while k < plan.rewrites.len()
            invariant
                k <= plan.rewrites@.len(),
                rewrite_errs@.len() == plan.rewrites@.len(),
                rv == rewrite_views(plan.rewrites@),
                re == opt_views(rewrite_errs@),
                crate::workspace::file_views(ws.http_files@) == apply_rewrites(files0, rv, re, k as int),
                crate::text::views(errors@) == rewrite_errors(rv, re, k as int),
                string_views(ws.http_file_order@) == w.workspace.order,
                crate::model::opt_id_view(ws.selection) == w.workspace.selection,
                env_views(ws.all_environments@) == w.workspace.envs,
            decreases plan.rewrites.len() - k,
        {
            let ghost fb = crate::workspace::file_views(ws.http_files@);
            let ghost eb = crate::text::views(errors@);
            assert(rv[k as int] == (plan.rewrites@[k as int].0@, crate::model::draft_views(plan.rewrites@[k as int].1@)));
            assert(re[k as int] == crate::cli::opt_seq(rewrite_errs@[k as int]));
            match &rewrite_errs[k] {
                None => {
                    if let Some(i) = crate::workspace::find_file(ws.http_files.as_slice(), plan.rewrites[k].0.as_str()) {
                        let mut f = ws.http_files.remove(i);
                        f.requests = crate::model::clone_drafts(&plan.rewrites[k].1);
                        ws.http_files.insert(i, f);
                        assert(crate::workspace::file_views(ws.http_files@) =~= set_requests(fb, rv[k as int].0, rv[k as int].1));
                    }
                },
                Some(e) => {
                    let m = message3("Failed to update ", plan.rewrites[k].0.as_str(), ": ", e.as_str());
                    errors.push(m);
                    assert(crate::text::views(errors@) =~= eb + seq!["Failed to update "@ + rv[k as int].0 + ": "@ + e@]);
                },
            }
            k = k + 1;
        }
        let ghost files1 = crate::workspace::file_views(ws.http_files@);
        let ghost e1 = crate::text::views(errors@);
        let mut k: usize = 0;
        while k < plan.remove_files.len()
            invariant
                k <= plan.remove_files@.len(),
                remove_errs@.len() == plan.remove_files@.len(),
                gone == string_views(plan.remove_files@),
                de == opt_views(remove_errs@),
                crate::workspace::file_views(ws.http_files@) == files1,
                crate::text::views(errors@) == e1 + removal_errors(gone, de, k as int),
                string_views(ws.http_file_order@) == w.workspace.order,
                crate::model::opt_id_view(ws.selection) == w.workspace.selection,
                env_views(ws.all_environments@) == w.workspace.envs,
            decreases plan.remove_files.len() - k,
        {
            let ghost eb = crate::text::views(errors@);
            assert(de[k as int] == crate::cli::opt_seq(remove_errs@[k as int]));
            if let Some(e) = &remove_errs[k] {
                let m = message3("Failed to delete ", plan.remove_files[k].as_str(), ": ", e.as_str());
                errors.push(m);
                assert(crate::text::views(errors@) =~= eb + seq!["Failed to delete "@ + gone[k as int] + ": "@ + e@]);
            }
            assert(e1 + removal_errors(gone, de, k + 1) =~= e1 + removal_errors(gone, de, k as int) + match de[k as int] {
                Some(e) => seq!["Failed to delete "@ + gone[k as int] + ": "@ + e],
                None => Seq::<Seq<char>>::empty(),
            });
            k = k + 1;
        }
        // drop the removed files
        let mut kept: Vec<crate::model::HttpFile> = Vec::new();
        let mut files = Vec::new();
        std::mem::swap(&mut files, &mut ws.http_files);
        let ghost fs = files@;
        let mut i: usize = 0;
        while i < files.len()
            invariant
                i <= fs.len(),
                fs == files@,
                crate::workspace::file_views(fs) == files1,
                gone == string_views(plan.remove_files@),
                crate::workspace::file_views(kept@) == without_paths(files1.take(i as int), gone),
                string_views(ws.http_file_order@) == w.workspace.order,
                crate::model::opt_id_view(ws.selection) == w.workspace.selection,
                env_views(ws.all_environments@) == w.workspace.envs,
            decreases files.len() - i,
        {
            let ghost t = files1.take(i + 1);
            assert(t.drop_last() =~= files1.take(i as int));
            assert(t.last() == fs[i as int]@);
            if !contains_str(&plan.remove_files, files[i].path.as_str()) {
                let f = files[i].clone();
                let ghost kb = crate::workspace::file_views(kept@);
                kept.push(f);
                assert(crate::workspace::file_views(kept@) =~= kb + seq![fs[i as int]@]);
            } else {
                assert(without_paths(t, gone) =~= without_paths(files1.take(i as int), gone));
            }
            i = i + 1;
        }
        assert(files1.take(files1.len() as int) =~= files1);
        ws.http_files = kept;
        let ghost files2 = crate::workspace::file_views(ws.http_files@);
        // the order
        if plan.remove_files.len() > 0 {
            let ghost ov = string_views(ws.http_file_order@);
            let mut order: Vec<String> = Vec::new();
            let mut j: usize = 0;
            while j < ws.http_file_order.len()
                invariant
                    j <= ov.len(),
                    ov == string_views(ws.http_file_order@),
                    gone == string_views(plan.remove_files@),
                    string_views(order@) == drop_listed(ov.take(j as int), gone),
                    ov == w.workspace.order,
                    crate::model::opt_id_view(ws.selection) == w.workspace.selection,
                    env_views(ws.all_environments@) == w.workspace.envs,
                    crate::workspace::file_views(ws.http_files@) == files2,
                decreases ws.http_file_order.len() - j,
            {
                let ghost t = ov.take(j + 1);
                assert(t.drop_last() =~= ov.take(j as int));
                assert(t.last() == ws.http_file_order@[j as int]@);
                if !contains_str(&plan.remove_files, ws.http_file_order[j].as_str()) {
                    let x = ws.http_file_order[j].clone();
                    let ghost ob = string_views(order@);
                    order.push(x);
                    assert(string_views(order@) =~= ob + seq![x@]);
                } else {
                    assert(drop_listed(t, gone) =~= drop_listed(ov.take(j as int), gone));
                }
                j = j + 1;
            }
            assert(ov.take(ov.len() as int) =~= ov);
            ws.http_file_order = order;
        }
        // the selection
        let drop = match &ws.selection {
            Some(RequestId::HttpFile { path, index }) => match crate::workspace::find_file(ws.http_files.as_slice(), path.as_str()) {
                Some(fi) => *index >= ws.http_files[fi].requests.len(),
                None => true,
            },
            _ => false,
        };
        if drop {
            ws.selection = None;
        }
        let ghost ws_after = self@.workspace;
        assert(ws_after.files == files2);
        assert(files2 == without_paths(apply_rewrites(w.workspace.files, rv, re, rv.len() as int), gone));
        assert(ws_after.order == (if gone.len() > 0 {
            drop_listed(w.workspace.order, gone)
        } else {
            w.workspace.order
        }));
        assert(ws_after.selection == selection_kept(w.workspace.selection, files2));
        assert(ws_after =~= WorkspaceView {
            files: files2,
            order: ws_after.order,
            selection: selection_kept(w.workspace.selection, files2),
            ..w.workspace
        });
        self.edit_state.clear_selection();
        let sep = crate::text::chars_of("; ");
        assert(crate::text::views(errors@) == rewrite_errors(rv, re, rv.len() as int) + removal_errors(gone, de, gone.len() as int));
        if errors.len() == 0 {
            self.update_status_with_missing("Deleted selection");
        } else {
            let m = crate::text::string_of(&crate::text::join_chars(&errors, &sep));
            self.update_status_with_missing(m.as_str());
        }
        self.refresh_visible_environments();
    }
}

/// The draft and save path that a request identifier names among the loaded files: a
/// request of a loaded file, at its place.
pub open spec fn resolve_request_spec(files: Seq<crate::model::HttpFileView>, id: RequestIdView) -> Option<(DraftView, Seq<char>)> {
    match id {
        RequestIdView::HttpFile { path, index } => {
            let k = crate::workspace::first_index(crate::workspace::file_paths(files), path);
            if k >= 0 && index < files[k].requests.len() {
                Some((files[k].requests[index as int], path))
            } else {
                None
            }
        },
        _ => None,
    }
}

impl Workbench {
    /// The draft a request identifier names, with the file it is saved to.
    pub fn resolve_request(&self, id: &RequestId) -> (r: Option<crate::editor::LoadedDraft>)
        ensures
            match r {
                Some(l) => resolve_request_spec(self@.workspace.files, id@) == Some((l.draft@, l.save_path@)),
                None => resolve_request_spec(self@.workspace.files, id@) is None,
            },
    {
        match id {
            RequestId::HttpFile { path, index } => {
                let files = self.workspace.http_files();
                match crate::workspace::find_file(files, path.as_str()) {
                    Some(k) => {
                        assert(self@.workspace.files[k as int] == files@[k as int]@);
                        if *index < files[k].requests.len() {
                            assert(self@.workspace.files[k as int].requests[*index as int] == files@[k as int].requests@[*index as int]@);
                            Some(crate::editor::LoadedDraft { draft: files[k].requests[*index].clone(), save_path: path.clone() })
                        } else {
                            None
                        }
                    },
                    None => None,
                }
            },
            _ => None,
        }
    }
}

} // verus!
