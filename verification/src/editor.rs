//! The request editor: the draft being edited, its header rows, and the actions that change
//! it.
use vstd::prelude::*;

use crate::env::{Environment, EnvironmentView};
use crate::model::{DraftView, Method, RequestDraft, RequestId, RequestIdView, opt_id_view, clone_request_id};
use crate::options::{AuthState, AuthView, RequestMode};
use crate::text::{
    append_chars, chars_of, join, join_chars, lines, lines_of, split_once, split_once_char, string_of, trim, trimmed,
    views,
};

verus! {

// ---------------------------------------------------------------------------
// Header rows
// ---------------------------------------------------------------------------

/// One `name: value` row of the header editor.
#[derive(Debug)]
pub struct HeaderRow {
    pub name: String,
    pub value: String,
}

impl View for HeaderRow {
    type V = (Seq<char>, Seq<char>);

    open spec fn view(&self) -> (Seq<char>, Seq<char>) {
        (self.name@, self.value@)
    }
}

impl Clone for HeaderRow {
    fn clone(&self) -> (r: Self)
        ensures
            r@ == self@,
    {
        HeaderRow { name: self.name.clone(), value: self.value.clone() }
    }
}

pub open spec fn row_views(v: Seq<HeaderRow>) -> Seq<(Seq<char>, Seq<char>)> {
    v.map_values(|r: HeaderRow| r@)
}

/// The row an empty header editor shows.
pub open spec fn blank_row() -> (Seq<char>, Seq<char>) {
    (Seq::empty(), Seq::empty())
}

/// The rows of the `name: value` lines among `ls`, trimmed; other lines are skipped.
pub open spec fn rows_of_lines(ls: Seq<Seq<char>>) -> Seq<(Seq<char>, Seq<char>)>
    decreases ls.len(),
{
    if ls.len() == 0 {
        Seq::empty()
    } else {
        rows_of_lines(ls.drop_last()) + match split_once(ls.last(), ':') {
            Some((n, v)) => seq![(trim(n), trim(v))],
            None => Seq::empty(),
        }
    }
}

/// The header rows a draft's header text gives; a single blank row when there are none.
pub open spec fn rows_from_headers(headers: Seq<char>) -> Seq<(Seq<char>, Seq<char>)> {
    let parsed = rows_of_lines(lines(headers));
    if headers.len() == 0 || parsed.len() == 0 {
        seq![blank_row()]
    } else {
        parsed
    }
}

/// The header lines the rows give: `name: value`, trimmed, for rows with a name.
pub open spec fn header_lines(rows: Seq<(Seq<char>, Seq<char>)>) -> Seq<Seq<char>>
    decreases rows.len(),
{
    if rows.len() == 0 {
        Seq::empty()
    } else {
        header_lines(rows.drop_last()) + (if trim(rows.last().0).len() > 0 {
            seq![trim(rows.last().0) + ": "@ + trim(rows.last().1)]
        } else {
            Seq::empty()
        })
    }
}

/// The header text the rows give, one line per named row.
pub open spec fn headers_from_rows(rows: Seq<(Seq<char>, Seq<char>)>) -> Seq<char> {
    join(header_lines(rows), "\n"@)
}

/// The rows of the `name: value` lines of `headers`.
pub fn parse_header_rows(headers: &str) -> (rows: Vec<HeaderRow>)
    ensures
        row_views(rows@) == rows_of_lines(lines(headers@)),
{
    let text = chars_of(headers);
    let ls = lines_of(&text);
    let ghost lv = views(ls@);
    let mut rows: Vec<HeaderRow> = Vec::new();
    let mut i: usize = 0;
    while i < ls.len()
        invariant
            i <= ls@.len(),
            lv == views(ls@),
            lv == lines(headers@),
            row_views(rows@) == rows_of_lines(lv.take(i as int)),
        decreases ls.len() - i,
    {
        let ghost t = lv.take(i + 1);
        assert(t.drop_last() =~= lv.take(i as int));
        assert(t.last() == ls@[i as int]@);
        let ghost before = row_views(rows@);
        match split_once_char(&ls[i], ':') {
            Some((n, v)) => {
                let name = trimmed(&n);
                let value = trimmed(&v);
                rows.push(HeaderRow { name: string_of(&name), value: string_of(&value) });
                assert(row_views(rows@) =~= before + seq![(trim(n@), trim(v@))]);
            },
            None => {
                assert(rows_of_lines(t) =~= rows_of_lines(lv.take(i as int)));
            },
        }
        i = i + 1;
    }
    assert(lv.take(lv.len() as int) =~= lv);
    rows
}

/// The rows the header editor shows for a header text.
pub fn header_rows_for(headers: &str) -> (rows: Vec<HeaderRow>)
    ensures
        row_views(rows@) == rows_from_headers(headers@),
{
    let mut rows = parse_header_rows(headers);
    if headers.unicode_len() == 0 || rows.len() == 0 {
        rows = Vec::new();
        rows.push(HeaderRow { name: String::new(), value: String::new() });
        assert(row_views(rows@) =~= seq![blank_row()]);
    }
    rows
}

/// The header text the rows give.
pub fn headers_text(rows: &[HeaderRow]) -> (out: String)
    ensures
        out@ == headers_from_rows(row_views(rows@)),
{
    let ghost rv = row_views(rows@);
    let mut ls: Vec<Vec<char>> = Vec::new();
    let mut i: usize = 0;
    while i < rows.len()
        invariant
            i <= rows@.len(),
            rv == row_views(rows@),
            views(ls@) == header_lines(rv.take(i as int)),
        decreases rows.len() - i,
    {
        let ghost t = rv.take(i + 1);
        assert(t.drop_last() =~= rv.take(i as int));
        assert(t.last() == rows@[i as int]@);
        let name = trimmed(&chars_of(rows[i].name.as_str()));
        let ghost before = views(ls@);
        if name.len() > 0 {
            let value = trimmed(&chars_of(rows[i].value.as_str()));
            let mut line = name;
            line.push(':');
            line.push(' ');
            append_chars(&mut line, &value);
            proof {
                reveal_strlit(": ");
            }
            assert(line@ =~= trim(rows@[i as int]@.0) + ": "@ + trim(rows@[i as int]@.1));
            ls.push(line);
            assert(views(ls@) =~= before + seq![trim(t.last().0) + ": "@ + trim(t.last().1)]);
        } else {
            assert(header_lines(t) =~= header_lines(rv.take(i as int)));
        }
        i = i + 1;
    }
    assert(rv.take(rv.len() as int) =~= rv);
    let mut sep: Vec<char> = Vec::new();
    sep.push('\n');
    proof {
        reveal_strlit("\n");
    }
    assert(sep@ =~= "\n"@);
    string_of(&join_chars(&ls, &sep))
}

/// Copies a list of header rows.
pub fn clone_rows(v: &[HeaderRow]) -> (r: Vec<HeaderRow>)
    ensures
        row_views(r@) == row_views(v@),
{
    let mut r: Vec<HeaderRow> = Vec::new();
    let mut i: usize = 0;
    while i < v.len()
        invariant
            i <= v@.len(),
            r@.len() == i,
            row_views(r@) == row_views(v@.take(i as int)),
        decreases v.len() - i,
    {
        let x = v[i].clone();
        let ghost prev = row_views(r@);
        r.push(x);
        assert(row_views(r@) =~= prev.push(x@));
        assert(row_views(v@.take(i + 1)) =~= row_views(v@.take(i as int)).push(v@[i as int]@));
        i = i + 1;
    }
    assert(v@.take(v@.len() as int) =~= v@);
    r
}

/// A position among the header rows, checked when it was made.
#[derive(Debug, Clone, Copy)]
pub struct HeaderIndex(usize);

impl View for HeaderIndex {
    type V = usize;

    closed spec fn view(&self) -> usize {
        self.0
    }
}

impl HeaderIndex {
    /// The position `index` when there are more than `index` rows.
    pub fn new(index: usize, row_count: usize) -> (r: Option<Self>)
        ensures
            match r {
                Some(i) => index < row_count && i@ == index,
                None => index >= row_count,
            },
    {
        if index < row_count {
            Some(HeaderIndex(index))
        } else {
            None
        }
    }

    pub fn get(self) -> (r: usize)
        ensures
            r == self@,
    {
        self.0
    }
}

// ---------------------------------------------------------------------------
// The editor model
// ---------------------------------------------------------------------------

/// A draft loaded into the editor, with the path a save goes to.
#[derive(Debug)]
pub struct LoadedDraft {
    pub draft: RequestDraft,
    pub save_path: String,
}

pub ghost struct LoadedDraftView {
    pub draft: DraftView,
    pub save_path: Seq<char>,
}

impl View for LoadedDraft {
    type V = LoadedDraftView;

    open spec fn view(&self) -> LoadedDraftView {
        LoadedDraftView { draft: self.draft@, save_path: self.save_path@ }
    }
}

impl Clone for LoadedDraft {
    fn clone(&self) -> (r: Self)
        ensures
            r@ == self@,
    {
        LoadedDraft { draft: self.draft.clone(), save_path: self.save_path.clone() }
    }
}

/// Everything the editor holds. The text of the body and GraphQL editors is kept as the
/// text they show.
#[derive(Debug)]
pub struct AppModel {
    pub draft: RequestDraft,
    pub body_editor: String,
    pub save_path: String,
    pub mode: RequestMode,
    pub auth: AuthState,
    pub graphql_query: String,
    pub graphql_variables: String,
    pub header_rows: Vec<HeaderRow>,
}

#[verifier::ext_equal]
pub ghost struct ModelView {
    pub draft: DraftView,
    pub body_editor: Seq<char>,
    pub save_path: Seq<char>,
    pub mode: RequestMode,
    pub auth: AuthView,
    pub graphql_query: Seq<char>,
    pub graphql_variables: Seq<char>,
    pub header_rows: Seq<(Seq<char>, Seq<char>)>,
}

impl View for AppModel {
    type V = ModelView;

    open spec fn view(&self) -> ModelView {
        ModelView {
            draft: self.draft@,
            body_editor: self.body_editor@,
            save_path: self.save_path@,
            mode: self.mode,
            auth: self.auth@,
            graphql_query: self.graphql_query@,
            graphql_variables: self.graphql_variables@,
            header_rows: row_views(self.header_rows@),
        }
    }
}

impl Clone for AppModel {
    fn clone(&self) -> (r: Self)
        ensures
            r@ == self@,
    {
        AppModel {
            draft: self.draft.clone(),
            body_editor: self.body_editor.clone(),
            save_path: self.save_path.clone(),
            mode: self.mode,
            auth: self.auth.clone(),
            graphql_query: self.graphql_query.clone(),
            graphql_variables: self.graphql_variables.clone(),
            header_rows: clone_rows(self.header_rows.as_slice()),
        }
    }
}

/// The editor before anything is loaded.
pub open spec fn default_model() -> ModelView {
    ModelView {
        draft: crate::model::default_draft(),
        body_editor: Seq::empty(),
        save_path: Seq::empty(),
        mode: RequestMode::Rest,
        auth: AuthView::NoAuth,
        graphql_query: Seq::empty(),
        graphql_variables: "{}"@,
        header_rows: seq![blank_row()],
    }
}

impl Default for AppModel {
    fn default() -> (r: Self)
        ensures
            r@ == default_model(),
    {
        let draft = RequestDraft::default();
        let body_editor = draft.body.clone();
        let mut header_rows: Vec<HeaderRow> = Vec::new();
        header_rows.push(HeaderRow { name: String::new(), value: String::new() });
        let r = AppModel {
            draft,
            body_editor,
            save_path: String::new(),
            mode: RequestMode::Rest,
            auth: AuthState::default(),
            graphql_query: String::new(),
            graphql_variables: String::from_str("{}"),
            header_rows,
        };
        assert(row_views(r.header_rows@) =~= seq![blank_row()]);
        r
    }
}

/// The editor after a draft is loaded.
pub open spec fn load_draft_spec(m: ModelView, loaded: LoadedDraftView) -> ModelView {
    ModelView {
        draft: loaded.draft,
        save_path: loaded.save_path,
        body_editor: loaded.draft.body,
        header_rows: rows_from_headers(loaded.draft.headers),
        ..m
    }
}

/// The editor after its rows change: the draft's header text follows them.
pub open spec fn with_rows(m: ModelView, rows: Seq<(Seq<char>, Seq<char>)>) -> ModelView {
    ModelView { header_rows: rows, draft: DraftView { headers: headers_from_rows(rows), ..m.draft }, ..m }
}

impl AppModel {
    pub fn load_draft(&mut self, loaded: LoadedDraft)
        ensures
            final(self)@ == load_draft_spec(old(self)@, loaded@),
    {
        self.draft = loaded.draft;
        self.save_path = loaded.save_path;
        self.body_editor = self.draft.body.clone();
        self.set_header_rows_from_draft();
    }

    /// Fills the header rows from the draft's header text.
    pub fn set_header_rows_from_draft(&mut self)
        ensures
            final(self)@ == (ModelView { header_rows: rows_from_headers(old(self)@.draft.headers), ..old(self)@ }),
    {
        self.header_rows = header_rows_for(self.draft.headers.as_str());
    }

    /// Rewrites the draft's header text from the rows.
    pub fn rebuild_headers_from_rows(&mut self)
        ensures
            final(self)@ == with_rows(old(self)@, old(self)@.header_rows),
    {
        self.draft.headers = headers_text(self.header_rows.as_slice());
    }
}


// ---------------------------------------------------------------------------
// Actions and effects
// ---------------------------------------------------------------------------

/// Work the editor asks for; the application carries it out.
#[derive(Debug)]
pub enum Effect {
    RescanFiles,
    SendRequest { draft: RequestDraft, env: Option<Environment> },
    PersistRequest {
        root: String,
        selection: Option<RequestId>,
        draft: RequestDraft,
        explicit_path: Option<String>,
    },
    CopyToClipboard(String),
}

pub ghost enum EffectView {
    RescanFiles,
    SendRequest { draft: DraftView, env: Option<EnvironmentView> },
    PersistRequest {
        root: Seq<char>,
        selection: Option<RequestIdView>,
        draft: DraftView,
        explicit_path: Option<Seq<char>>,
    },
    CopyToClipboard(Seq<char>),
}

pub open spec fn opt_env_view(e: Option<Environment>) -> Option<EnvironmentView> {
    match e {
        Some(x) => Some(x@),
        None => None,
    }
}

pub open spec fn opt_string_view(e: Option<String>) -> Option<Seq<char>> {
    match e {
        Some(x) => Some(x@),
        None => None,
    }
}

impl View for Effect {
    type V = EffectView;

    open spec fn view(&self) -> EffectView {
        match self {
            Effect::RescanFiles => EffectView::RescanFiles,
            Effect::SendRequest { draft, env } => EffectView::SendRequest { draft: draft@, env: opt_env_view(*env) },
            Effect::PersistRequest { root, selection, draft, explicit_path } => EffectView::PersistRequest {
                root: root@,
                selection: opt_id_view(*selection),
                draft: draft@,
                explicit_path: opt_string_view(*explicit_path),
            },
            Effect::CopyToClipboard(t) => EffectView::CopyToClipboard(t@),
        }
    }
}

impl Clone for Effect {
    fn clone(&self) -> (r: Self)
        ensures
            r@ == self@,
    {
        match self {
            Effect::RescanFiles => Effect::RescanFiles,
            Effect::SendRequest { draft, env } => Effect::SendRequest {
                draft: draft.clone(),
                env: match env {
                    Some(e) => Some(e.clone()),
                    None => None,
                },
            },
            Effect::PersistRequest { root, selection, draft, explicit_path } => Effect::PersistRequest {
                root: root.clone(),
                selection: clone_request_id(selection),
                draft: draft.clone(),
                explicit_path: match explicit_path {
                    Some(p) => Some(p.clone()),
                    None => None,
                },
            },
            Effect::CopyToClipboard(t) => Effect::CopyToClipboard(t.clone()),
        }
    }
}

/// A change to the editor. The edits of the body and GraphQL editors carry the text the
/// editor shows once the edit is made.
#[derive(Debug)]
pub enum Action {
    LoadDraft(LoadedDraft),
    MethodSelected(Method),
    UrlChanged(String),
    TitleChanged(String),
    ModeChanged(RequestMode),
    BodyEdited(String),
    GraphqlQueryEdited(String),
    GraphqlVariablesEdited(String),
    AuthChanged(AuthState),
    HeaderNameChanged(HeaderIndex, String),
    HeaderValueChanged(HeaderIndex, String),
    HeaderAdded,
    HeaderRemoved(HeaderIndex),
    SavePathChanged(String),
    Emit(Effect),
}

pub ghost enum ActionView {
    LoadDraft(LoadedDraftView),
    MethodSelected(Method),
    UrlChanged(Seq<char>),
    TitleChanged(Seq<char>),
    ModeChanged(RequestMode),
    BodyEdited(Seq<char>),
    GraphqlQueryEdited(Seq<char>),
    GraphqlVariablesEdited(Seq<char>),
    AuthChanged(AuthView),
    HeaderNameChanged(usize, Seq<char>),
    HeaderValueChanged(usize, Seq<char>),
    HeaderAdded,
    HeaderRemoved(usize),
    SavePathChanged(Seq<char>),
    Emit(EffectView),
}

impl View for Action {
    type V = ActionView;

    open spec fn view(&self) -> ActionView {
        match self {
            Action::LoadDraft(l) => ActionView::LoadDraft(l@),
            Action::MethodSelected(m) => ActionView::MethodSelected(*m),
            Action::UrlChanged(u) => ActionView::UrlChanged(u@),
            Action::TitleChanged(t) => ActionView::TitleChanged(t@),
            Action::ModeChanged(m) => ActionView::ModeChanged(*m),
            Action::BodyEdited(t) => ActionView::BodyEdited(t@),
            Action::GraphqlQueryEdited(t) => ActionView::GraphqlQueryEdited(t@),
            Action::GraphqlVariablesEdited(t) => ActionView::GraphqlVariablesEdited(t@),
            Action::AuthChanged(a) => ActionView::AuthChanged(a@),
            Action::HeaderNameChanged(i, v) => ActionView::HeaderNameChanged(i@, v@),
            Action::HeaderValueChanged(i, v) => ActionView::HeaderValueChanged(i@, v@),
            Action::HeaderAdded => ActionView::HeaderAdded,
            Action::HeaderRemoved(i) => ActionView::HeaderRemoved(i@),
            Action::SavePathChanged(p) => ActionView::SavePathChanged(p@),
            Action::Emit(e) => ActionView::Emit(e@),
        }
    }
}

impl Clone for Action {
    fn clone(&self) -> (r: Self)
        ensures
            r@ == self@,
    {
        match self {
            Action::LoadDraft(l) => Action::LoadDraft(l.clone()),
            Action::MethodSelected(m) => Action::MethodSelected(*m),
            Action::UrlChanged(u) => Action::UrlChanged(u.clone()),
            Action::TitleChanged(t) => Action::TitleChanged(t.clone()),
            Action::ModeChanged(m) => Action::ModeChanged(*m),
            Action::BodyEdited(t) => Action::BodyEdited(t.clone()),
            Action::GraphqlQueryEdited(t) => Action::GraphqlQueryEdited(t.clone()),
            Action::GraphqlVariablesEdited(t) => Action::GraphqlVariablesEdited(t.clone()),
            Action::AuthChanged(a) => Action::AuthChanged(a.clone()),
            Action::HeaderNameChanged(i, v) => Action::HeaderNameChanged(*i, v.clone()),
            Action::HeaderValueChanged(i, v) => Action::HeaderValueChanged(*i, v.clone()),
            Action::HeaderAdded => Action::HeaderAdded,
            Action::HeaderRemoved(i) => Action::HeaderRemoved(*i),
            Action::SavePathChanged(p) => Action::SavePathChanged(p.clone()),
            Action::Emit(e) => Action::Emit(e.clone()),
        }
    }
}

/// The editor after an action; a header edit at a row that does not exist changes nothing.
pub open spec fn reduce_spec(m: ModelView, a: ActionView) -> ModelView {
    match a {
        ActionView::LoadDraft(l) => load_draft_spec(m, l),
        ActionView::MethodSelected(x) => ModelView { draft: DraftView { method: x, ..m.draft }, ..m },
        ActionView::UrlChanged(u) => ModelView { draft: DraftView { url: u, ..m.draft }, ..m },
        ActionView::TitleChanged(t) => ModelView { draft: DraftView { title: t, ..m.draft }, ..m },
        ActionView::ModeChanged(x) => ModelView { mode: x, ..m },
        ActionView::BodyEdited(t) => ModelView { body_editor: t, draft: DraftView { body: t, ..m.draft }, ..m },
        ActionView::GraphqlQueryEdited(t) => ModelView { graphql_query: t, ..m },
        ActionView::GraphqlVariablesEdited(t) => ModelView { graphql_variables: t, ..m },
        ActionView::AuthChanged(x) => ModelView { auth: x, ..m },
        ActionView::HeaderNameChanged(i, v) => if i < m.header_rows.len() {
            with_rows(m, m.header_rows.update(i as int, (v, m.header_rows[i as int].1)))
        } else {
            m
        },
        ActionView::HeaderValueChanged(i, v) => if i < m.header_rows.len() {
            with_rows(m, m.header_rows.update(i as int, (m.header_rows[i as int].0, v)))
        } else {
            m
        },
        ActionView::HeaderAdded => with_rows(m, m.header_rows.push(blank_row())),
        ActionView::HeaderRemoved(i) => if i < m.header_rows.len() {
            with_rows(m, m.header_rows.remove(i as int))
        } else {
            m
        },
        ActionView::SavePathChanged(p) => ModelView { save_path: p, ..m },
        ActionView::Emit(_) => m,
    }
}

/// The effects an action asks for: only `Emit` asks for one.
pub open spec fn effects_spec(a: ActionView) -> Seq<EffectView> {
    match a {
        ActionView::Emit(e) => seq![e],
        _ => Seq::empty(),
    }
}

pub open spec fn effect_views(v: Seq<Effect>) -> Seq<EffectView> {
    v.map_values(|e: Effect| e@)
}

/// Applies an action to the editor.
pub fn reduce(model: AppModel, action: Action) -> (r: (AppModel, Vec<Effect>))
    ensures
        r.0@ == reduce_spec(model@, action@),
        effect_views(r.1@) == effects_spec(action@),
{
    let mut model = model;
    let ghost m = model@;
    let ghost a = action@;
    match action {
        Action::LoadDraft(loaded) => {
            model.load_draft(loaded);
        },
        Action::MethodSelected(method) => {
            model.draft.method = method;
        },
        Action::UrlChanged(url) => {
            model.draft.url = url;
        },
        Action::TitleChanged(title) => {
            model.draft.title = title;
        },
        Action::ModeChanged(mode) => {
            model.mode = mode;
        },
        Action::BodyEdited(text) => {
            model.draft.body = text.clone();
            model.body_editor = text;
        },
        Action::GraphqlQueryEdited(text) => {
            model.graphql_query = text;
        },
        Action::GraphqlVariablesEdited(text) => {
            model.graphql_variables = text;
        },
        Action::AuthChanged(auth) => {
            model.auth = auth;
        },
        Action::HeaderNameChanged(idx, value) => {
            let i = idx.get();
            if i < model.header_rows.len() {
                let old_value = model.header_rows[i].value.clone();
                let ghost before = model.header_rows@;
                model.header_rows.set(i, HeaderRow { name: value, value: old_value });
                assert(row_views(model.header_rows@) =~= row_views(before).update(i as int, (a->HeaderNameChanged_1, row_views(before)[i as int].1)));
                model.rebuild_headers_from_rows();
            }
        },
        Action::HeaderValueChanged(idx, value) => {
            let i = idx.get();
            if i < model.header_rows.len() {
                let old_name = model.header_rows[i].name.clone();
                let ghost before = model.header_rows@;
                model.header_rows.set(i, HeaderRow { name: old_name, value });
                assert(row_views(model.header_rows@) =~= row_views(before).update(i as int, (row_views(before)[i as int].0, a->HeaderValueChanged_1)));
                model.rebuild_headers_from_rows();
            }
        },
        Action::HeaderAdded => {
            let ghost before = model.header_rows@;
            model.header_rows.push(HeaderRow { name: String::new(), value: String::new() });
            assert(row_views(model.header_rows@) =~= row_views(before).push(blank_row()));
            model.rebuild_headers_from_rows();
        },
        Action::HeaderRemoved(idx) => {
            let i = idx.get();
            if i < model.header_rows.len() {
                let ghost before = model.header_rows@;
                model.header_rows.remove(i);
                assert(row_views(model.header_rows@) =~= row_views(before).remove(i as int));
                model.rebuild_headers_from_rows();
            }
        },
        Action::SavePathChanged(path) => {
            model.save_path = path;
        },
        Action::Emit(effect) => {
            let mut effects: Vec<Effect> = Vec::new();
            effects.push(effect);
            assert(effect_views(effects@) =~= effects_spec(a));
            return (model, effects);
        },
    }
    let effects: Vec<Effect> = Vec::new();
    assert(effect_views(effects@) =~= Seq::<EffectView>::empty());
    (model, effects)
}

} // verus!
