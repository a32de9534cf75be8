//! Running an automation scenario against the workbench: each poll advances through the
//! steps as far as it can and says what the application is to do next (send, find the
//! window, take a screenshot, or finish). Times are milliseconds on the application's
//! monotonic clock.
use vstd::prelude::*;

use crate::automation::{
    sanitize_screenshot_name, sanitize_spec, RawStep, RequestSelector, ScenarioStep, SnapshotOutcome, StepView,
};
use crate::cli::AutomationOptions;
use crate::domain::best_root_index;
use crate::env::lex_lt;
use crate::model::{HttpFileView, RequestId, RequestIdView};
use crate::paths::{path_ends_with, path_is_absolute, path_strip_prefix};
use crate::text::{concat2, contains, decimal, decimal_string, push_chars, push_str, str_eq};
use crate::workbench::{select_spec, with_status, Workbench, WorkbenchView};

verus! {

/// What an automation run is waiting for.
#[derive(Debug)]
pub enum PendingWait {
    RequestAvailable { selector: RequestSelector, started_ms: u64, timeout_ms: u64 },
    ResponseStatus { status: u16, started_ms: u64, timeout_ms: u64 },
    TextPresent { text: String, started_ms: u64, timeout_ms: u64 },
    Delay { started_ms: u64, duration_ms: u64 },
}

pub ghost enum WaitView {
    RequestAvailable { path: Seq<char>, index: nat, started_ms: nat, timeout_ms: nat },
    ResponseStatus { status: nat, started_ms: nat, timeout_ms: nat },
    TextPresent { text: Seq<char>, started_ms: nat, timeout_ms: nat },
    Delay { started_ms: nat, duration_ms: nat },
}

impl View for PendingWait {
    type V = WaitView;

    open spec fn view(&self) -> WaitView {
        match self {
            PendingWait::RequestAvailable { selector, started_ms, timeout_ms } => WaitView::RequestAvailable {
                path: selector.path@,
                index: selector.index as nat,
                started_ms: *started_ms as nat,
                timeout_ms: *timeout_ms as nat,
            },
            PendingWait::ResponseStatus { status, started_ms, timeout_ms } => WaitView::ResponseStatus {
                status: *status as nat,
                started_ms: *started_ms as nat,
                timeout_ms: *timeout_ms as nat,
            },
            PendingWait::TextPresent { text, started_ms, timeout_ms } => WaitView::TextPresent {
                text: text@,
                started_ms: *started_ms as nat,
                timeout_ms: *timeout_ms as nat,
            },
            PendingWait::Delay { started_ms, duration_ms } => WaitView::Delay {
                started_ms: *started_ms as nat,
                duration_ms: *duration_ms as nat,
            },
        }
    }
}

/// The state of an automation run.
#[derive(Debug)]
pub struct AutomationRuntime {
    pub scenario_name: String,
    pub steps: Vec<ScenarioStep>,
    pub current_step: usize,
    pub pending_wait: Option<PendingWait>,
    pub pending_screenshot_name: Option<String>,
    pub screenshot_dir: String,
    pub state_output_path: Option<String>,
    pub window_known: bool,
    pub exit_when_done: bool,
    pub done: bool,
}

#[verifier::ext_equal]
pub ghost struct RuntimeView {
    pub scenario_name: Seq<char>,
    pub steps: Seq<StepView>,
    pub current_step: nat,
    pub pending_wait: Option<WaitView>,
    pub pending_screenshot_name: Option<Seq<char>>,
    pub screenshot_dir: Seq<char>,
    pub state_output_path: Option<Seq<char>>,
    pub window_known: bool,
    pub exit_when_done: bool,
    pub done: bool,
}

pub open spec fn step_views(v: Seq<ScenarioStep>) -> Seq<StepView> {
    v.map_values(|s: ScenarioStep| s@)
}

impl View for AutomationRuntime {
    type V = RuntimeView;

    open spec fn view(&self) -> RuntimeView {
        RuntimeView {
            scenario_name: self.scenario_name@,
            steps: step_views(self.steps@),
            current_step: self.current_step as nat,
            pending_wait: match self.pending_wait {
                Some(w) => Some(w@),
                None => None,
            },
            pending_screenshot_name: crate::cli::opt_seq(self.pending_screenshot_name),
            screenshot_dir: self.screenshot_dir@,
            state_output_path: crate::cli::opt_seq(self.state_output_path),
            window_known: self.window_known,
            exit_when_done: self.exit_when_done,
            done: self.done,
        }
    }
}

impl AutomationRuntime {
    /// Whether the run waits for something and has to be polled.
    pub fn should_poll(&self) -> (r: bool)
        ensures
            r == (self@.pending_wait is Some && !self@.done),
    {
        self.pending_wait.is_some() && !self.done
    }
}

/// The steps of a scenario file, or why it cannot run: it has no steps, or a step is
/// invalid (the first one found).
pub open spec fn load_steps_spec(raw: Seq<RawStep>, path: Seq<char>) -> Result<Seq<StepView>, Seq<char>>
    decreases raw.len(),
{
    if raw.len() == 0 {
        Ok(Seq::empty())
    } else {
        match load_steps_spec(raw.drop_last(), path) {
            Err(e) => Err(e),
            Ok(prev) => match crate::automation::step_spec(raw.last().action@, raw.last().value, raw.last().timeout_ms) {
                Ok(s) => Ok(prev.push(s)),
                Err(e) => Err("invalid scenario step #"@ + decimal((raw.len() - 1) as nat) + " in "@ + path + ": "@ + e),
            },
        }
    }
}

impl AutomationRuntime {
    /// A run of a scenario read from a file: its name (the file's stem, or `scenario`, when
    /// the file gives none), its steps (`step` entries, then `steps` entries).
    pub fn load(
        name: Option<String>,
        step: Vec<RawStep>,
        steps: Vec<RawStep>,
        options: AutomationOptions,
    ) -> (r: Result<Self, String>)
        ensures
            ({
                let raw = step@ + steps@;
                let path = options.scenario_path@;
                if raw.len() == 0 {
                    r matches Err(e) && e@ == "scenario "@ + path + " has no [[step]] entries"@
                } else {
                    match load_steps_spec(raw, path) {
                        Err(msg) => r matches Err(e) && e@ == msg,
                        Ok(sv) => r matches Ok(rt) && runtime_wf(rt@) && rt@ == (RuntimeView {
                            scenario_name: match name {
                                Some(n) => n@,
                                None => match crate::paths::path_file_stem(path) {
                                    Some(s) => s,
                                    None => "scenario"@,
                                },
                            },
                            steps: sv,
                            current_step: 0,
                            pending_wait: None,
                            pending_screenshot_name: None,
                            screenshot_dir: options.screenshot_dir@,
                            state_output_path: crate::cli::opt_seq(options.state_output_path),
                            window_known: false,
                            exit_when_done: options.exit_when_done,
                            done: false,
                        }),
                    }
                }
            }),
    {
        let mut all = step;
        let mut more = steps;
        let ghost raw = all@ + more@;
        all.append(&mut more);
        assert(all@ =~= raw);
        let path = options.scenario_path;
        if all.len() == 0 {
            let mut m = String::from_str("scenario ");
            push_str(&mut m, path.as_str());
            push_str(&mut m, " has no [[step]] entries");
            return Err(m);
        }
        let mut parsed: Vec<ScenarioStep> = Vec::new();
        let mut i: usize = 0;
        assert(raw.take(0) =~= Seq::<RawStep>::empty());
        assert(step_views(parsed@) =~= Seq::<StepView>::empty());
        while i < all.len()
            invariant
                i <= all@.len(),
                all@ == raw,
                raw == step@ + steps@,
                path@ == options.scenario_path@,
                load_steps_spec(raw.take(i as int), path@) == Ok::<Seq<StepView>, Seq<char>>(step_views(parsed@)),
            decreases all.len() - i,
        {
            let ghost t = raw.take(i + 1);
            assert(t.drop_last() =~= raw.take(i as int));
            assert(t.last() == raw[i as int]);
            match ScenarioStep::from_raw(&all[i]) {
                Ok(s) => {
                    let ghost b = step_views(parsed@);
                    parsed.push(s);
                    assert(step_views(parsed@) =~= b.push(s@));
                },
                Err(e) => {
                    let mut m = String::from_str("invalid scenario step #");
                    push_chars(&mut m, &decimal_string(i as u64));
                    push_str(&mut m, " in ");
                    push_str(&mut m, path.as_str());
                    push_str(&mut m, ": ");
                    push_str(&mut m, e.as_str());
                    proof {
                        assert(t.len() - 1 == i);
                        assert(load_steps_spec(t, path@) == Err::<Seq<StepView>, Seq<char>>(m@));
                        assert(load_steps_spec(raw, path@) == load_steps_spec(t, path@)) by {
                            lemma_load_steps_error_stays(raw, path@, i + 1);
                        }
                        assert(load_steps_spec(raw, path@) == Err::<Seq<StepView>, Seq<char>>(m@));
                        assert(raw.len() != 0);
                    }
                    return Err(m);
                },
            }
            i = i + 1;
        }
        assert(raw.take(raw.len() as int) =~= raw);
        let scenario_name = match name {
            Some(n) => n,
            None => match crate::paths::file_stem(path.as_str()) {
                Some(s) => s,
                None => String::from_str("scenario"),
            },
        };
        Ok(
            AutomationRuntime {
                scenario_name,
                steps: parsed,
                current_step: 0,
                pending_wait: None,
                pending_screenshot_name: None,
                screenshot_dir: options.screenshot_dir,
                state_output_path: options.state_output_path,
                window_known: false,
                exit_when_done: options.exit_when_done,
                done: false,
            },
        )
    }
}

proof fn lemma_load_steps_error_stays(raw: Seq<RawStep>, path: Seq<char>, k: int)
    requires
        0 <= k <= raw.len(),
        load_steps_spec(raw.take(k), path) is Err,
    ensures
        load_steps_spec(raw, path) == load_steps_spec(raw.take(k), path),
    decreases raw.len() - k,
{
    if k == raw.len() {
        assert(raw.take(k) =~= raw);
    } else {
        assert(raw.drop_last().take(k) =~= raw.take(k));
        lemma_load_steps_error_stays(raw.drop_last(), path, k);
    }
}

// ---------------------------------------------------------------------------
// Finding requests and waiting
// ---------------------------------------------------------------------------

/// Whether a loaded file is the one a selector's path names: the same path when it is
/// absolute; otherwise a path ending with it, or whose place inside its project folder is
/// it.
pub open spec fn selector_matches(file: Seq<char>, sel_path: Seq<char>, projects: Seq<Seq<char>>) -> bool {
    if path_is_absolute(sel_path) {
        file == sel_path
    } else {
        path_ends_with(file, sel_path) || match best_root_index(projects, file) {
            Some(i) => path_strip_prefix(file, projects[i]) == Some(sel_path),
            None => false,
        }
    }
}

/// A loaded file that a selector can pick: it matches and has a request at the index.
pub open spec fn selector_candidate(f: HttpFileView, sel_path: Seq<char>, index: nat, projects: Seq<Seq<char>>) -> bool {
    selector_matches(f.path, sel_path, projects) && index < f.requests.len()
}

/// The request a selector names: among the loaded files it can pick, the one whose path
/// comes first.
pub open spec fn resolves_to(files: Seq<HttpFileView>, sel_path: Seq<char>, index: nat, projects: Seq<Seq<char>>, r: Option<RequestIdView>) -> bool {
    match r {
        None => forall|k: int| 0 <= k < files.len() ==> !selector_candidate(#[trigger] files[k], sel_path, index, projects),
        Some(id) => exists|k: int|
            0 <= k < files.len() && selector_candidate(#[trigger] files[k], sel_path, index, projects) && id
                == RequestIdView::HttpFile { path: files[k].path, index: index as usize } && forall|m: int|
                0 <= m < files.len() && selector_candidate(#[trigger] files[m], sel_path, index, projects) ==> !lex_lt(
                    files[m].path,
                    files[k].path,
                ),
    }
}

/// The request a selector names, if any.
pub open spec fn resolved_request(files: Seq<HttpFileView>, sel_path: Seq<char>, index: nat, projects: Seq<Seq<char>>) -> Option<RequestIdView> {
    if exists|r: RequestIdView| resolves_to(files, sel_path, index, projects, Some(r)) {
        Some(choose|r: RequestIdView| resolves_to(files, sel_path, index, projects, Some(r)))
    } else {
        None
    }
}

/// A selector names at most one request.
pub proof fn lemma_resolves_unique(
    files: Seq<HttpFileView>,
    sel_path: Seq<char>,
    index: nat,
    projects: Seq<Seq<char>>,
    a: RequestIdView,
    b: RequestIdView,
)
    requires
        resolves_to(files, sel_path, index, projects, Some(a)),
        resolves_to(files, sel_path, index, projects, Some(b)),
    ensures
        a == b,
{
    let ka = choose|k: int|
        0 <= k < files.len() && selector_candidate(#[trigger] files[k], sel_path, index, projects) && a
            == RequestIdView::HttpFile { path: files[k].path, index: index as usize } && forall|m: int|
            0 <= m < files.len() && selector_candidate(#[trigger] files[m], sel_path, index, projects) ==> !lex_lt(
                files[m].path,
                files[k].path,
            );
    let kb = choose|k: int|
        0 <= k < files.len() && selector_candidate(#[trigger] files[k], sel_path, index, projects) && b
            == RequestIdView::HttpFile { path: files[k].path, index: index as usize } && forall|m: int|
            0 <= m < files.len() && selector_candidate(#[trigger] files[m], sel_path, index, projects) ==> !lex_lt(
                files[m].path,
                files[k].path,
            );
    assert(!lex_lt(files[ka].path, files[kb].path));
    assert(!lex_lt(files[kb].path, files[ka].path));
    crate::env::lemma_lex_lt_total(files[ka].path, files[kb].path);
}

proof fn lemma_resolved_is(files: Seq<HttpFileView>, sel_path: Seq<char>, index: nat, projects: Seq<Seq<char>>, r: Option<RequestIdView>)
    requires
        resolves_to(files, sel_path, index, projects, r),
    ensures
        resolved_request(files, sel_path, index, projects) == r,
{
    match r {
        Some(a) => {
            assert(exists|x: RequestIdView| resolves_to(files, sel_path, index, projects, Some(x)));
            let c = choose|x: RequestIdView| resolves_to(files, sel_path, index, projects, Some(x));
            lemma_resolves_unique(files, sel_path, index, projects, a, c);
        },
        None => {
            assert forall|x: RequestIdView| !resolves_to(files, sel_path, index, projects, Some(x)) by {
                if resolves_to(files, sel_path, index, projects, Some(x)) {
                    let k = choose|k: int|
                        0 <= k < files.len() && selector_candidate(#[trigger] files[k], sel_path, index, projects) && x
                            == RequestIdView::HttpFile { path: files[k].path, index: index as usize } && forall|m: int|
                            0 <= m < files.len() && selector_candidate(#[trigger] files[m], sel_path, index, projects)
                                ==> !lex_lt(files[m].path, files[k].path);
                    assert(!selector_candidate(files[k], sel_path, index, projects));
                }
            }
        },
    }
}

fn file_matches(path: &str, selector: &RequestSelector, configuration: &crate::domain::ProjectConfiguration) -> (r: bool)
    ensures
        r == selector_matches(path@, selector.path@, configuration@.projects),
{
    if crate::paths::is_absolute(selector.path.as_str()) {
        str_eq(path, selector.path.as_str())
    } else {
        if crate::paths::ends_with(path, selector.path.as_str()) {
            return true;
        }
        match configuration.project_root_for_path(path) {
            Some(root) => match crate::paths::strip_prefix(path, root.as_path()) {
                Some(rel) => str_eq(rel.as_str(), selector.path.as_str()),
                None => false,
            },
            None => false,
        }
    }
}

impl Workbench {
    /// The loaded request a selector names.
    pub fn resolve_request_selector(&self, selector: &RequestSelector) -> (r: Option<RequestId>)
        ensures
            resolves_to(
                self@.workspace.files,
                selector.path@,
                selector.index as nat,
                self@.configuration.projects,
                crate::model::opt_id_view(r),
            ),
            crate::model::opt_id_view(r) == resolved_request(
                self@.workspace.files,
                selector.path@,
                selector.index as nat,
                self@.configuration.projects,
            ),
    {
        let files = self.workspace.http_files();
        let ghost fv = crate::workspace::file_views(files@);
        let ghost projects = self.configuration@.projects;
        let mut best: Option<usize> = None;
        let mut i: usize = 0;
        while i < files.len()
            invariant
                i <= files@.len(),
                fv == crate::workspace::file_views(files@),
                fv == self@.workspace.files,
                projects == self.configuration@.projects,
                best is None ==> forall|k: int|
                    0 <= k < i ==> !selector_candidate(#[trigger] fv[k], selector.path@, selector.index as nat, projects),
                best is Some ==> best->0 < i && selector_candidate(fv[best->0 as int], selector.path@, selector.index as nat, projects),
                best is Some ==> forall|m: int|
                    0 <= m < i && selector_candidate(#[trigger] fv[m], selector.path@, selector.index as nat, projects) ==> !lex_lt(
                        fv[m].path,
                        fv[best->0 as int].path,
                    ),
            decreases files.len() - i,
        {
            assert(fv[i as int] == files@[i as int]@);
            assert(fv[i as int].requests.len() == files@[i as int].requests@.len());
            let ok = selector.index < files[i].requests.len() && file_matches(files[i].path.as_str(), selector, &self.configuration);
            assert(ok == selector_candidate(fv[i as int], selector.path@, selector.index as nat, projects));
            if ok {
                match best {
                    None => {
                        proof {
                            crate::env::lemma_lex_lt_irreflexive(fv[i as int].path);
                        }
                        best = Some(i);
                    },
                    Some(b) => {
                        assert(fv[b as int] == files@[b as int]@);
                        let pi = crate::text::chars_of(files[i].path.as_str());
                        let pb = crate::text::chars_of(files[b].path.as_str());
                        if crate::env::lex_less(&pi, &pb) {
                            proof {
                                assert forall|m: int|
                                    0 <= m < i + 1 && selector_candidate(#[trigger] fv[m], selector.path@, selector.index as nat, projects) implies !lex_lt(
                                    fv[m].path,
                                    fv[i as int].path,
                                ) by {
                                    if m < i {
                                        if lex_lt(fv[m].path, fv[i as int].path) {
                                            crate::env::lemma_lex_lt_transitive(fv[m].path, fv[i as int].path, fv[b as int].path);
                                        }
                                    } else {
                                        crate::env::lemma_lex_lt_irreflexive(fv[m].path);
                                    }
                                }
                            }
                            best = Some(i);
                        }
                    },
                }
            }
            i = i + 1;
        }
        let r = match best {
            Some(b) => Some(RequestId::HttpFile { path: files[b].path.clone(), index: selector.index }),
            None => None,
        };
        proof {
            lemma_resolved_is(fv, selector.path@, selector.index as nat, projects, crate::model::opt_id_view(r));
        }
        r
    }
}

/// How long since `started_ms`, never negative.
pub open spec fn elapsed(now_ms: u64, started_ms: nat) -> nat {
    if now_ms >= started_ms {
        (now_ms - started_ms) as nat
    } else {
        0
    }
}

/// Whether a wait is over: the request can be found, the response has the status, the
/// text shows in the status line, the response body or the viewer, or the delay passed.
pub open spec fn wait_satisfied_spec(w: WorkbenchView, wait: WaitView, now_ms: u64) -> bool {
    match wait {
        WaitView::RequestAvailable { path, index, .. } => exists|r: RequestIdView|
            resolves_to(w.workspace.files, path, index, w.configuration.projects, Some(r)),
        WaitView::ResponseStatus { status, .. } => w.response matches Some(resp) && (resp.status matches Some(s) && s
            == status),
        WaitView::TextPresent { text, .. } => contains(w.status_line, text) || (w.response matches Some(resp)
            && contains(resp.body.raw, text)) || contains(w.response_viewer, text),
        WaitView::Delay { started_ms, duration_ms } => elapsed(now_ms, started_ms) >= duration_ms,
    }
}

/// The message of a wait that has timed out.
pub open spec fn wait_timeout_spec(wait: WaitView, now_ms: u64) -> Option<Seq<char>> {
    match wait {
        WaitView::RequestAvailable { path, index, started_ms, timeout_ms } => if elapsed(now_ms, started_ms)
            > timeout_ms {
            Some("timed out waiting for request "@ + path + "#"@ + decimal(index))
        } else {
            None
        },
        WaitView::ResponseStatus { status, started_ms, timeout_ms } => if elapsed(now_ms, started_ms) > timeout_ms {
            Some("timed out waiting for HTTP status "@ + decimal(status))
        } else {
            None
        },
        WaitView::TextPresent { text, started_ms, timeout_ms } => if elapsed(now_ms, started_ms) > timeout_ms {
            Some("timed out waiting for text '"@ + text + "'"@)
        } else {
            None
        },
        WaitView::Delay { .. } => None,
    }
}

fn contains_text(hay: &str, needle: &str) -> (r: bool)
    ensures
        r == contains(hay@, needle@),
{
    crate::text::contains_sub(&crate::text::chars_of(hay), &crate::text::chars_of(needle))
}

impl Workbench {
    pub fn wait_satisfied(&self, wait: &PendingWait, now_ms: u64) -> (r: bool)
        ensures
            r == wait_satisfied_spec(self@, wait@, now_ms),
    {
        match wait {
            PendingWait::RequestAvailable { selector, .. } => {
                let found = self.resolve_request_selector(selector);
                proof {
                    let files = self@.workspace.files;
                    let p = selector.path@;
                    let idx = selector.index as nat;
                    let pr = self@.configuration.projects;
                    if found is Some {
                        assert(resolves_to(files, p, idx, pr, Some(found->0@)));
                    } else {
                        {
                            assert forall|r: RequestIdView| !resolves_to(files, p, idx, pr, Some(r)) by {
                                if resolves_to(files, p, idx, pr, Some(r)) {
                                    let k = choose|k: int|
                                        0 <= k < files.len() && selector_candidate(#[trigger] files[k], p, idx, pr) && r
                                            == RequestIdView::HttpFile { path: files[k].path, index: idx as usize }
                                            && forall|m: int|
                                            0 <= m < files.len() && selector_candidate(#[trigger] files[m], p, idx, pr)
                                                ==> !lex_lt(files[m].path, files[k].path);
                                    assert(!selector_candidate(files[k], p, idx, pr));
                                }
                            }
                        }
                    }
                    assert(wait@ matches WaitView::RequestAvailable { path, index, .. } && path == p && index == idx);
                    assert(self@.workspace.files == files);
                    assert(found is Some <==> exists|r: RequestIdView| resolves_to(files, p, idx, pr, Some(r)));
                }
                found.is_some()
            },
            PendingWait::ResponseStatus { status, .. } => match &self.response {
                Some(resp) => match resp.preview.status {
                    Some(actual) => actual == *status,
                    None => false,
                },
                None => false,
            },
            PendingWait::TextPresent { text, .. } => {
                contains_text(self.status_line.as_str(), text.as_str()) || match &self.response {
                    Some(resp) => contains_text(resp.body.raw(), text.as_str()),
                    None => false,
                } || contains_text(self.response_viewer.as_str(), text.as_str())
            },
            PendingWait::Delay { started_ms, duration_ms } => now_ms.saturating_sub(*started_ms) >= *duration_ms,
        }
    }
}

/// The message of a wait that has timed out, if it has.
pub fn wait_timeout_message(wait: &PendingWait, now_ms: u64) -> (r: Option<String>)
    ensures
        crate::cli::opt_seq(r) == wait_timeout_spec(wait@, now_ms),
{
    match wait {
        PendingWait::RequestAvailable { selector, started_ms, timeout_ms } => {
            if now_ms.saturating_sub(*started_ms) > *timeout_ms {
                let mut m = String::from_str("timed out waiting for request ");
                push_str(&mut m, selector.path.as_str());
                push_str(&mut m, "#");
                push_chars(&mut m, &decimal_string(selector.index as u64));
                Some(m)
            } else {
                None
            }
        },
        PendingWait::ResponseStatus { status, started_ms, timeout_ms } => {
            if now_ms.saturating_sub(*started_ms) > *timeout_ms {
                let mut m = String::from_str("timed out waiting for HTTP status ");
                push_chars(&mut m, &decimal_string(*status as u64));
                Some(m)
            } else {
                None
            }
        },
        PendingWait::TextPresent { text, started_ms, timeout_ms } => {
            if now_ms.saturating_sub(*started_ms) > *timeout_ms {
                let mut m = String::from_str("timed out waiting for text '");
                push_str(&mut m, text.as_str());
                push_str(&mut m, "'");
                Some(m)
            } else {
                None
            }
        },
        PendingWait::Delay { .. } => None,
    }
}


// ---------------------------------------------------------------------------
// Driving a run
// ---------------------------------------------------------------------------

/// What the application is to do after the run was advanced.
#[derive(Debug)]
pub enum AutomationCommand {
    /// Nothing until the next poll.
    Idle,
    /// Send the current request.
    Send,
    /// Find the application's window and report it with `window_resolved`.
    ResolveWindow,
    /// Take a screenshot of the window and report it with `screenshot_saved`.
    Screenshot,
    /// Close the application's window.
    CloseWindow,
    /// The run ended: write the state snapshot where one is asked for, then report it with
    /// `automation_reported`.
    Finished(SnapshotOutcome),
}

pub ghost enum CommandView {
    Idle,
    Send,
    ResolveWindow,
    Screenshot,
    CloseWindow,
    /// The failure reason, none when the run completed.
    Finished(Option<Seq<char>>),
}

impl View for AutomationCommand {
    type V = CommandView;

    open spec fn view(&self) -> CommandView {
        match self {
            AutomationCommand::Idle => CommandView::Idle,
            AutomationCommand::Send => CommandView::Send,
            AutomationCommand::ResolveWindow => CommandView::ResolveWindow,
            AutomationCommand::Screenshot => CommandView::Screenshot,
            AutomationCommand::CloseWindow => CommandView::CloseWindow,
            AutomationCommand::Finished(o) => CommandView::Finished(
                match o {
                    SnapshotOutcome::Completed => None,
                    SnapshotOutcome::Failed(r) => Some(r@),
                },
            ),
        }
    }
}

/// A run whose position is consistent: never past the last step, on a step while it waits,
/// and on a screenshot step, not waiting, while a screenshot is pending.
pub open spec fn runtime_wf(rt: RuntimeView) -> bool {
    &&& rt.current_step <= rt.steps.len()
    &&& rt.pending_wait is Some ==> rt.current_step < rt.steps.len()
    &&& rt.pending_screenshot_name is Some ==> {
        &&& rt.current_step < rt.steps.len()
        &&& rt.steps[rt.current_step as int] is Screenshot
        &&& rt.pending_wait is None
    }
}

/// The run moved on to the next step.
pub open spec fn advanced(rt: RuntimeView) -> RuntimeView {
    RuntimeView { current_step: rt.current_step + 1, ..rt }
}

/// The run waiting for `wait`.
pub open spec fn waiting(rt: RuntimeView, wait: WaitView) -> RuntimeView {
    RuntimeView { pending_wait: Some(wait), ..rt }
}

/// The status line at the end of a run: completed, or failed for `reason`.
pub open spec fn finish_message(rt: RuntimeView, reason: Option<Seq<char>>) -> Seq<char> {
    match reason {
        None => "Automation '"@ + rt.scenario_name + "' completed"@,
        Some(r) => "Automation failed: "@ + r,
    }
}

/// Ending a run: it is done, and the status line says how it ended.
pub open spec fn finish_spec(w: WorkbenchView, rt: RuntimeView, reason: Option<Seq<char>>) -> (
    WorkbenchView,
    RuntimeView,
    CommandView,
) {
    (with_status(w, finish_message(rt, reason)), RuntimeView { done: true, ..rt }, CommandView::Finished(reason))
}

/// Running the steps from the current one: steps that can be done at once are done, until
/// a step has to wait, asks the application for something, or the steps run out.
pub open spec fn run_steps_spec(w: WorkbenchView, rt: RuntimeView, now_ms: u64) -> (
    WorkbenchView,
    RuntimeView,
    CommandView,
)
    decreases rt.steps.len() - rt.current_step,
{
    if rt.current_step >= rt.steps.len() {
        finish_spec(w, rt, None)
    } else {
        match rt.steps[rt.current_step as int] {
            StepView::SelectRequest { path, index, timeout_ms } => match resolved_request(
                w.workspace.files,
                path,
                index,
                w.configuration.projects,
            ) {
                Some(id) => run_steps_spec(select_spec(w, id), advanced(rt), now_ms),
                None => (
                    w,
                    waiting(rt, WaitView::RequestAvailable { path, index, started_ms: now_ms as nat, timeout_ms }),
                    CommandView::Idle,
                ),
            },
            StepView::Send => (w, advanced(rt), CommandView::Send),
            StepView::WaitForStatus { status, timeout_ms } => {
                let wait = WaitView::ResponseStatus { status, started_ms: now_ms as nat, timeout_ms };
                if wait_satisfied_spec(w, wait, now_ms) {
                    run_steps_spec(w, advanced(rt), now_ms)
                } else {
                    (w, waiting(rt, wait), CommandView::Idle)
                }
            },
            StepView::WaitForText { text, timeout_ms } => {
                let wait = WaitView::TextPresent { text, started_ms: now_ms as nat, timeout_ms };
                if wait_satisfied_spec(w, wait, now_ms) {
                    run_steps_spec(w, advanced(rt), now_ms)
                } else {
                    (w, waiting(rt, wait), CommandView::Idle)
                }
            },
            StepView::WaitForMillis(duration_ms) => if duration_ms == 0 {
                run_steps_spec(w, advanced(rt), now_ms)
            } else {
                (w, waiting(rt, WaitView::Delay { started_ms: now_ms as nat, duration_ms }), CommandView::Idle)
            },
            StepView::Screenshot { name } => if rt.window_known {
                (w, RuntimeView { pending_screenshot_name: Some(name), ..rt }, CommandView::Screenshot)
            } else {
                (w, rt, CommandView::ResolveWindow)
            },
        }
    }
}

/// A poll of the run: nothing once it is done; a pending wait that is over lets the run go
/// on with the next step, one that timed out fails the run, another keeps it waiting.
pub open spec fn drive_spec(w: WorkbenchView, rt: RuntimeView, now_ms: u64) -> (WorkbenchView, RuntimeView, CommandView) {
    if rt.done {
        (w, rt, CommandView::Idle)
    } else {
        match rt.pending_wait {
            Some(wait) => if wait_satisfied_spec(w, wait, now_ms) {
                run_steps_spec(w, advanced(RuntimeView { pending_wait: None, ..rt }), now_ms)
            } else {
                match wait_timeout_spec(wait, now_ms) {
                    Some(m) => finish_spec(w, rt, Some(m)),
                    None => (w, rt, CommandView::Idle),
                }
            },
            None => run_steps_spec(w, rt, now_ms),
        }
    }
}

impl Workbench {
    /// Ends the run as completed.
    pub fn complete_automation(&mut self, runtime: &mut AutomationRuntime) -> (c: AutomationCommand)
        ensures
            final(self)@ == finish_spec(old(self)@, old(runtime)@, None).0,
            final(runtime)@ == finish_spec(old(self)@, old(runtime)@, None).1,
            c@ == finish_spec(old(self)@, old(runtime)@, None).2,
    {
        runtime.done = true;
        let mut m = String::from_str("Automation '");
        push_str(&mut m, runtime.scenario_name.as_str());
        push_str(&mut m, "' completed");
        self.update_status_with_missing(m.as_str());
        AutomationCommand::Finished(SnapshotOutcome::Completed)
    }

    /// Ends the run as failed for `reason`.
    pub fn fail_automation(&mut self, runtime: &mut AutomationRuntime, reason: String) -> (c: AutomationCommand)
        ensures
            final(self)@ == finish_spec(old(self)@, old(runtime)@, Some(reason@)).0,
            final(runtime)@ == finish_spec(old(self)@, old(runtime)@, Some(reason@)).1,
            c@ == finish_spec(old(self)@, old(runtime)@, Some(reason@)).2,
    {
        runtime.done = true;
        let mut m = String::from_str("Automation failed: ");
        push_str(&mut m, reason.as_str());
        self.update_status_with_missing(m.as_str());
        AutomationCommand::Finished(SnapshotOutcome::Failed(reason))
    }
}

impl Workbench {
    fn run_automation_steps(&mut self, runtime: &mut AutomationRuntime, now_ms: u64) -> (c: AutomationCommand)
        requires
            runtime_wf(old(runtime)@),
            old(runtime).pending_wait is None,
        ensures
            final(self)@ == run_steps_spec(old(self)@, old(runtime)@, now_ms).0,
            final(runtime)@ == run_steps_spec(old(self)@, old(runtime)@, now_ms).1,
            c@ == run_steps_spec(old(self)@, old(runtime)@, now_ms).2,
    {
        loop
            invariant
                runtime_wf(runtime@),
                runtime.pending_wait is None,
                run_steps_spec(self@, runtime@, now_ms) == run_steps_spec(old(self)@, old(runtime)@, now_ms),
            decreases runtime.steps.len() - runtime.current_step,
        {
            if runtime.current_step >= runtime.steps.len() {
                return self.complete_automation(runtime);
            }
            let ghost w0 = self@;
            let ghost r0 = runtime@;
            let step = runtime.steps[runtime.current_step].clone();
            assert(r0.steps[r0.current_step as int] == step@);
            match step {
                ScenarioStep::SelectRequest { selector, timeout_ms } => {
                    match self.resolve_request_selector(&selector) {
                        Some(id) => {
                            self.apply_selection(&id);
                            runtime.current_step = runtime.current_step + 1;
                        },
                        None => {
                            runtime.pending_wait = Some(
                                PendingWait::RequestAvailable { selector, started_ms: now_ms, timeout_ms },
                            );
                            return AutomationCommand::Idle;
                        },
                    }
                },
                ScenarioStep::Send => {
                    runtime.current_step = runtime.current_step + 1;
                    return AutomationCommand::Send;
                },
                ScenarioStep::WaitForStatus { status, timeout_ms } => {
                    let wait = PendingWait::ResponseStatus { status, started_ms: now_ms, timeout_ms };
                    if self.wait_satisfied(&wait, now_ms) {
                        runtime.current_step = runtime.current_step + 1;
                    } else {
                        runtime.pending_wait = Some(wait);
                        return AutomationCommand::Idle;
                    }
                },
                ScenarioStep::WaitForText { text, timeout_ms } => {
                    let wait = PendingWait::TextPresent { text, started_ms: now_ms, timeout_ms };
                    if self.wait_satisfied(&wait, now_ms) {
                        runtime.current_step = runtime.current_step + 1;
                    } else {
                        runtime.pending_wait = Some(wait);
                        return AutomationCommand::Idle;
                    }
                },
                ScenarioStep::WaitForMillis(duration_ms) => {
                    if duration_ms == 0 {
                        runtime.current_step = runtime.current_step + 1;
                    } else {
                        runtime.pending_wait = Some(PendingWait::Delay { started_ms: now_ms, duration_ms });
                        return AutomationCommand::Idle;
                    }
                },
                ScenarioStep::Screenshot { name } => {
                    if runtime.window_known {
                        runtime.pending_screenshot_name = Some(name);
                        return AutomationCommand::Screenshot;
                    } else {
                        return AutomationCommand::ResolveWindow;
                    }
                },
            }
        }
    }

    /// Advances the run as far as it can go now, and says what the application is to do.
    pub fn drive_automation(&mut self, runtime: &mut AutomationRuntime, now_ms: u64) -> (c: AutomationCommand)
        requires
            runtime_wf(old(runtime)@),
        ensures
            final(self)@ == drive_spec(old(self)@, old(runtime)@, now_ms).0,
            final(runtime)@ == drive_spec(old(self)@, old(runtime)@, now_ms).1,
            c@ == drive_spec(old(self)@, old(runtime)@, now_ms).2,
            runtime_wf(final(runtime)@),
    {
        proof {
            lemma_drive_keeps_wf(self@, runtime@, now_ms);
        }
        if runtime.done {
            return AutomationCommand::Idle;
        }
        let (sat, timeout) = match &runtime.pending_wait {
            Some(wait) => {
                let sat = self.wait_satisfied(wait, now_ms);
                let timeout = if sat {
                    None
                } else {
                    wait_timeout_message(wait, now_ms)
                };
                (Some(sat), timeout)
            },
            None => (None, None),
        };
        match sat {
            Some(true) => {
                let n = runtime.steps.len();
                assert(runtime@.steps.len() == n);
                runtime.pending_wait = None;
                runtime.current_step = runtime.current_step + 1;
            },
            Some(false) => {
                match timeout {
                    Some(m) => {
                        return self.fail_automation(runtime, m);
                    },
                    None => {
                        return AutomationCommand::Idle;
                    },
                }
            },
            None => {},
        }
        self.run_automation_steps(runtime, now_ms)
    }
}

proof fn lemma_run_steps_keeps_wf(w: WorkbenchView, rt: RuntimeView, now_ms: u64)
    requires
        runtime_wf(rt),
        rt.pending_wait is None,
    ensures
        runtime_wf(run_steps_spec(w, rt, now_ms).1),
    decreases rt.steps.len() - rt.current_step,
{
    if rt.current_step < rt.steps.len() {
        match rt.steps[rt.current_step as int] {
            StepView::SelectRequest { path, index, .. } => {
                match resolved_request(w.workspace.files, path, index, w.configuration.projects) {
                    Some(id) => lemma_run_steps_keeps_wf(select_spec(w, id), advanced(rt), now_ms),
                    None => {},
                }
            },
            StepView::Screenshot { .. } => {},
            _ => {
                lemma_run_steps_keeps_wf(w, advanced(rt), now_ms);
            },
        }
    }
}

/// Every poll keeps the run's position consistent.
pub proof fn lemma_drive_keeps_wf(w: WorkbenchView, rt: RuntimeView, now_ms: u64)
    requires
        runtime_wf(rt),
    ensures
        runtime_wf(drive_spec(w, rt, now_ms).1),
{
    if rt.pending_wait is None {
        lemma_run_steps_keeps_wf(w, rt, now_ms);
    } else {
        lemma_run_steps_keeps_wf(w, advanced(RuntimeView { pending_wait: None, ..rt }), now_ms);
    }
}

/// A number written with at least two digits, as `{:02}` writes it.
pub open spec fn two_digits(n: nat) -> Seq<char> {
    if n < 10 {
        seq!['0'] + decimal(n)
    } else {
        decimal(n)
    }
}

/// The file the screenshot of step `number` (counted from 1) named `name` is saved to.
pub open spec fn screenshot_path_spec(dir: Seq<char>, number: nat, name: Seq<char>) -> Seq<char> {
    crate::paths::path_join(dir, two_digits(number) + "-"@ + sanitize_spec(name) + ".png"@)
}

/// The failure reason of an outcome, none when the run completed.
pub open spec fn outcome_reason(outcome: SnapshotOutcome) -> Option<Seq<char>> {
    match outcome {
        SnapshotOutcome::Completed => None,
        SnapshotOutcome::Failed(r) => Some(r@),
    }
}

/// The status line once the state snapshot was written to `path`.
pub open spec fn reported_message(rt: RuntimeView, reason: Option<Seq<char>>, path: Seq<char>) -> Seq<char> {
    finish_message(rt, reason) + " (state: "@ + path + ")"@
}

/// What follows the end of a run: closing the window when the run is to exit (finding the
/// window first when it is not known yet), nothing otherwise.
pub open spec fn exit_command(rt: RuntimeView) -> CommandView {
    if rt.exit_when_done {
        if rt.window_known {
            CommandView::CloseWindow
        } else {
            CommandView::ResolveWindow
        }
    } else {
        CommandView::Idle
    }
}

/// The message of a screenshot that no step asked for.
pub open spec fn unexpected_screenshot_message() -> Seq<char> {
    "received a screenshot but no screenshot step is pending"@
}

fn two_digit_string(n: usize) -> (r: String)
    ensures
        r@ == two_digits(n as nat),
{
    let d = decimal_string(n as u64);
    let mut r = String::new();
    proof {
        reveal_strlit("0");
    }
    assert(r@ =~= Seq::<char>::empty());
    if n < 10 {
        push_str(&mut r, "0");
    }
    push_chars(&mut r, &d);
    r
}

impl AutomationRuntime {
    /// Where the pending screenshot is to be saved, if one is pending.
    pub fn screenshot_target(&self) -> (r: Option<String>)
        requires
            runtime_wf(self@),
        ensures
            match self@.pending_screenshot_name {
                Some(n) => r matches Some(p) && p@ == screenshot_path_spec(self@.screenshot_dir, (self.current_step + 1) as nat, n),
                None => r is None,
            },
    {
        match &self.pending_screenshot_name {
            Some(name) => {
                let n = self.steps.len();
                assert(self@.steps.len() == n);
                let mut file = two_digit_string(self.current_step + 1);
                push_str(&mut file, "-");
                let stem = sanitize_screenshot_name(name.as_str());
                push_str(&mut file, stem.as_str());
                push_str(&mut file, ".png");
                Some(crate::paths::join(self.screenshot_dir.as_str(), file.as_str()))
            },
            None => None,
        }
    }
}

impl Workbench {
    /// Takes in a screenshot that the application saved to the pending screenshot's file
    /// (`saved` says whether that worked): the run goes on with the next step, or fails.
    pub fn screenshot_saved(
        &mut self,
        runtime: &mut AutomationRuntime,
        saved: Result<(), String>,
        now_ms: u64,
    ) -> (c: AutomationCommand)
        requires
            runtime_wf(old(runtime)@),
        ensures
            runtime_wf(final(runtime)@),
            ({
                let rt = old(runtime)@;
                let w = old(self)@;
                let outcome = match rt.pending_screenshot_name {
                    None => finish_spec(w, rt, Some(unexpected_screenshot_message())),
                    Some(n) => {
                        let rt1 = RuntimeView { pending_screenshot_name: None, ..rt };
                        match saved {
                            Ok(_) => {
                                let path = screenshot_path_spec(rt.screenshot_dir, rt.current_step + 1, n);
                                drive_spec(
                                    with_status(w, "Automation screenshot saved: "@ + path),
                                    advanced(rt1),
                                    now_ms,
                                )
                            },
                            Err(e) => finish_spec(w, rt1, Some(e@)),
                        }
                    },
                };
                &&& final(self)@ == outcome.0
                &&& final(runtime)@ == outcome.1
                &&& c@ == outcome.2
            }),
    {
        let target = runtime.screenshot_target();
        match target {
            None => self.fail_automation(runtime, String::from_str("received a screenshot but no screenshot step is pending")),
            Some(path) => {
                let n = runtime.steps.len();
                assert(runtime@.steps.len() == n);
                runtime.pending_screenshot_name = None;
                match saved {
                    Ok(()) => {
                        runtime.current_step = runtime.current_step + 1;
                        let mut m = String::from_str("Automation screenshot saved: ");
                        push_str(&mut m, path.as_str());
                        self.update_status_with_missing(m.as_str());
                        self.drive_automation(runtime, now_ms)
                    },
                    Err(e) => self.fail_automation(runtime, e),
                }
            },
        }
    }

    /// Takes in what the application found of its window (`found`: whether it has one): a
    /// run that ended and is to exit closes it; another goes on.
    pub fn window_resolved(&mut self, runtime: &mut AutomationRuntime, found: bool, now_ms: u64) -> (c: AutomationCommand)
        requires
            runtime_wf(old(runtime)@),
        ensures
            runtime_wf(final(runtime)@),
            ({
                let rt = old(runtime)@;
                let rt1 = RuntimeView { window_known: rt.window_known || found, ..rt };
                if rt1.done && rt1.exit_when_done {
                    &&& final(self)@ == old(self)@
                    &&& final(runtime)@ == rt1
                    &&& c@ == (if rt1.window_known {
                        CommandView::CloseWindow
                    } else {
                        CommandView::Idle
                    })
                } else {
                    let outcome = drive_spec(old(self)@, rt1, now_ms);
                    &&& final(self)@ == outcome.0
                    &&& final(runtime)@ == outcome.1
                    &&& c@ == outcome.2
                }
            }),
    {
        if found {
            runtime.window_known = true;
        }
        if runtime.done && runtime.exit_when_done {
            if runtime.window_known {
                AutomationCommand::CloseWindow
            } else {
                AutomationCommand::Idle
            }
        } else {
            self.drive_automation(runtime, now_ms)
        }
    }

    /// Takes in where the application wrote the state snapshot of a run that ended, if it
    /// wrote one, and says what follows.
    pub fn automation_reported(
        &mut self,
        runtime: &AutomationRuntime,
        outcome: &SnapshotOutcome,
        state_path: Option<String>,
    ) -> (c: AutomationCommand)
        ensures
            final(self)@ == (match state_path {
                Some(p) => with_status(old(self)@, reported_message(runtime@, outcome_reason(*outcome), p@)),
                None => old(self)@,
            }),
            c@ == exit_command(runtime@),
    {
        if let Some(path) = state_path {
            let mut m = match outcome {
                SnapshotOutcome::Completed => {
                    let mut m = String::from_str("Automation '");
                    push_str(&mut m, runtime.scenario_name.as_str());
                    push_str(&mut m, "' completed");
                    m
                },
                SnapshotOutcome::Failed(reason) => {
                    let mut m = String::from_str("Automation failed: ");
                    push_str(&mut m, reason.as_str());
                    m
                },
            };
            push_str(&mut m, " (state: ");
            push_str(&mut m, path.as_str());
            push_str(&mut m, ")");
            self.update_status_with_missing(m.as_str());
        }
        if runtime.exit_when_done {
            if runtime.window_known {
                AutomationCommand::CloseWindow
            } else {
                AutomationCommand::ResolveWindow
            }
        } else {
            AutomationCommand::Idle
        }
    }
}

} // verus!
