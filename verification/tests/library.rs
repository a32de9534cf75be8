use zagel::automation::{sanitize_screenshot_name, RawStep, RequestSelector, ScenarioStep, SnapshotOutcome, StepValue};
use zagel::cli::{parse_args, AutomationOptions, CliError};
use zagel::domain::{GlobalEnvChangeOutcome, ProjectChangeOutcome, ProjectConfiguration, RootOpError};
use zagel::editor::{reduce, Action, AppModel};
use zagel::env::{apply_environment, with_default_environment, EnvVars, Environment};
use zagel::history::{Focus, History};
use zagel::http_file::{env_name_for_path, is_env_file, is_http_file, parse_env_content, parse_http_content, render_http_file, slugify};
use zagel::model::{HttpFile, Method, RequestDraft, RequestId, ResponsePreview};
use zagel::net::{bearer_authorization, parse_required, prepare_request, token_from_reply, OAuth2AccessToken};
use zagel::options::{build_graphql_body, AuthKind, AuthState};
use zagel::pathing::{GlobalEnvRoot, PathProbe, ProjectRoot, SaveFilePath, SavePathError};
use zagel::response::{body_caption, pretty_json, HtmlParseMode, PrettyKind, ResponseDisplay};
use zagel::runner::{AutomationCommand, AutomationRuntime};
use zagel::session::{EditState, EditTarget};
use zagel::sidebar::{row_selected, sidebar_rows, IconSet, SidebarContext, SidebarRow};
use zagel::state::{state_file_path, AppState};
use zagel::status::status_line;
use zagel::workbench::Workbench;
use zagel::workspace::{ConfiguredWorkspace, WorkspaceState};

fn folder() -> PathProbe {
    PathProbe { exists: true, is_dir: true, canonical: None }
}

fn project(path: &str) -> ProjectRoot {
    ProjectRoot::from_stored(path.to_string(), &folder()).expect("project root")
}

fn draft(title: &str, method: Method, url: &str) -> RequestDraft {
    RequestDraft { title: title.to_string(), method, url: url.to_string(), headers: String::new(), body: String::new() }
}

fn env(name: &str, vars: &[(&str, &str)]) -> Environment {
    let mut v = EnvVars::new();
    for (k, val) in vars {
        v.insert(k.to_string(), val.to_string());
    }
    Environment { name: name.to_string(), vars: v }
}

// ----- .http and .env files -----

#[test]
fn http_file_blocks_follow_the_readme_example() {
    let content = "GET https://httpbin.org/get\nAccept: application/json\n\n###\nPOST https://httpbin.org/post\nContent-Type: application/json\n\n{\"hello\":\"world\"}\n";
    let requests = parse_http_content(content);
    assert_eq!(requests.len(), 2);
    assert_eq!(requests[0].method, Method::Get);
    assert_eq!(requests[0].url, "https://httpbin.org/get");
    assert_eq!(requests[0].headers.trim(), "Accept: application/json");
    assert_eq!(requests[1].method, Method::Post);
    assert_eq!(requests[1].url, "https://httpbin.org/post");
    assert_eq!(requests[1].headers.trim(), "Content-Type: application/json");
    assert_eq!(requests[1].body.trim(), "{\"hello\":\"world\"}");
}

#[test]
fn rendered_requests_read_back() {
    let mut a = draft("List", Method::Get, "https://example.com/items");
    a.headers = "Accept: text/plain".to_string();
    let mut b = draft("Create", Method::Put, "https://example.com/items/1");
    b.body = "payload".to_string();
    let parsed = parse_http_content(&render_http_file(&[a.clone(), b.clone()]));
    assert_eq!(parsed.len(), 2);
    assert_eq!(parsed[0].method, a.method);
    assert_eq!(parsed[0].url, a.url);
    assert_eq!(parsed[0].headers.trim(), a.headers);
    assert_eq!(parsed[1].method, b.method);
    assert_eq!(parsed[1].url, b.url);
    assert_eq!(parsed[1].body.trim(), b.body);
}

#[test]
fn env_file_lines_define_variables() {
    let vars = parse_env_content("# comment\nAPI_URL = https://httpbin.org\n\nTOKEN=secret\nTOKEN=other\nnot a pair\n");
    assert_eq!(vars.len(), 2);
    assert_eq!(vars.get("API_URL").map(|s| s.as_str()), Some("https://httpbin.org"));
    assert_eq!(vars.get("TOKEN").map(|s| s.as_str()), Some("other"));
    assert!(!vars.contains_key("not a pair"));
}

#[test]
fn env_files_are_recognised_by_name() {
    assert!(is_env_file("/w/dev.env"));
    assert!(is_env_file("/w/.env"));
    assert!(is_env_file("/w/PROD.ENV"));
    assert!(!is_env_file("/w/requests.http"));
    assert_eq!(env_name_for_path("/w/dev.env"), "dev");
}

#[test]
fn slugify_keeps_a_name_for_symbols_only() {
    assert_eq!(slugify("!!!").iter().collect::<String>(), "request");
    assert_eq!(slugify("Get  User_Id").iter().collect::<String>(), "get--user-id");
}

// ----- variables and the status line -----

#[test]
fn placeholders_are_filled_from_the_environment() {
    let e = env("dev", &[("HOST", "api.local"), ("ID", "7")]);
    assert_eq!(apply_environment("https://{{HOST}}/items/{{ID}}?q={{OTHER}}", &e.vars), "https://api.local/items/7?q={{OTHER}}");
}

#[test]
fn status_line_names_missing_variables_in_order() {
    let e = env("dev", &[("HOST", "api.local")]);
    let d = RequestDraft {
        title: "t".to_string(),
        method: Method::Get,
        url: "https://{{HOST}}/{{ZETA}}/{{ALPHA}}".to_string(),
        headers: "X: {{ALPHA}}".to_string(),
        body: String::new(),
    };
    assert_eq!(status_line("Ready", &d, Some(&e), &[]), "Ready - Missing variables in dev: ALPHA, ZETA");
    let complete = draft("t", Method::Get, "https://{{HOST}}/");
    assert_eq!(status_line("Ready", &complete, Some(&e), &[]), "Ready");
    assert_eq!(
        status_line("Ready", &complete, None, &["{{Q}}".to_string()]),
        "Ready - Missing variables in environment: HOST, Q"
    );
}

#[test]
fn default_environment_comes_first() {
    let all = with_default_environment(vec![env("dev", &[])]);
    assert_eq!(all.len(), 2);
    assert_eq!(all[0].name, "No environment");
    assert_eq!(all[1].name, "dev");
}

// ----- sending -----

#[test]
fn prepared_request_fills_variables_and_splits_headers() {
    let e = env("dev", &[("HOST", "api.local"), ("TOKEN", "abc")]);
    let d = RequestDraft {
        title: "t".to_string(),
        method: Method::Post,
        url: "https://{{HOST}}/x".to_string(),
        headers: "Authorization: Bearer {{TOKEN}}\nAccept: */*".to_string(),
        body: "{{TOKEN}}".to_string(),
    };
    let p = prepare_request(&d, Some("dev"), &e.vars, None);
    assert_eq!(p.method, Method::Post);
    assert_eq!(p.url, "https://api.local/x");
    assert_eq!(p.body, "abc");
    assert_eq!(
        p.headers,
        vec![("Authorization".to_string(), "Bearer abc".to_string()), ("Accept".to_string(), "*/*".to_string())]
    );
    let q = prepare_request(&d, Some("dev"), &e.vars, Some("Bearer zzz".to_string()));
    assert!(q.headers.iter().any(|(n, v)| n == "authorization" && v == "Bearer zzz"));
    assert!(!q.headers.iter().any(|(_, v)| v == "Bearer abc"));
}

#[test]
fn bearer_header_and_required_fields() {
    assert_eq!(bearer_authorization("tok"), "Bearer tok");
    assert_eq!(parse_required("client_id", "  id ".to_string()), Ok("id".to_string()));
    assert!(parse_required("client_id", "   ".to_string()).is_err());
}

#[test]
fn access_token_expires_with_a_margin() {
    let token = OAuth2AccessToken { value: "t".to_string(), expires_at_ms: Some(100_000) };
    assert!(token.is_still_valid(0));
    assert!(!token.is_still_valid(100_000));
    assert!(!token.is_still_valid(70_001));
    assert!(token.is_still_valid(69_999));
    let forever = OAuth2AccessToken { value: "t".to_string(), expires_at_ms: None };
    assert!(forever.is_still_valid(u64::MAX));
}

#[test]
fn graphql_body_carries_query_and_variables() {
    let body = build_graphql_body("{ me { id } }", "{\"a\":1}");
    let v: serde_json::Value = serde_json::from_str(&body).expect("json body");
    assert_eq!(v["query"], "{ me { id } }");
    assert_eq!(v["variables"]["a"], 1);
    let plain: serde_json::Value = serde_json::from_str(&build_graphql_body("{ me }", "")).expect("json body");
    assert_eq!(plain["query"], "{ me }");
}

#[test]
fn auth_kind_round_trips_through_with_kind() {
    for kind in [AuthKind::NoAuth, AuthKind::Bearer, AuthKind::ApiKey, AuthKind::Basic, AuthKind::OAuth2ClientCredentials] {
        assert_eq!(AuthState::NoAuth.with_kind(kind).kind(), kind);
    }
}

// ----- responses -----

#[test]
fn pretty_json_indents_and_rejects_non_json() {
    assert_eq!(pretty_json("{\"a\":[1,2]}"), Some("{\n  \"a\": [\n    1,\n    2\n  ]\n}".to_string()));
    assert_eq!(pretty_json("not json"), None);
}

#[test]
fn pretty_html_indents_a_document() {
    let out = zagel::html::pretty_html("<html><body><p>Hi</p></body></html>", HtmlParseMode::Document);
    assert!(out.contains("<p>"));
    assert!(out.lines().count() > 1);
}

// ----- command line -----

#[test]
fn relative_paths_are_taken_from_the_working_folder() {
    let args: Vec<(String, bool)> =
        ["--project-root", "api", "--automation", "/s/a.toml"].iter().map(|a| (a.to_string(), true)).collect();
    let parsed = parse_args(args, Ok("/work".to_string())).expect("parse");
    assert_eq!(parsed.project_roots, vec![std::path::Path::new("/work").join("api").to_string_lossy().into_owned()]);
    let a = parsed.automation.expect("automation");
    assert_eq!(a.scenario_path, "/s/a.toml");
    assert!(!a.exit_when_done);
}

#[test]
fn cli_errors() {
    let one = |a: &str| vec![(a.to_string(), true)];
    assert!(matches!(parse_args(one("--help"), Ok("/w".to_string())), Err(CliError::HelpRequested)));
    assert!(matches!(parse_args(one("--bogus"), Ok("/w".to_string())), Err(CliError::UnknownFlag(f)) if f == "--bogus"));
    assert!(matches!(parse_args(vec![("x".to_string(), false)], Ok("/w".to_string())), Err(CliError::NonUtf8Flag)));
    let rel = vec![("--state-file".to_string(), true), ("s.toml".to_string(), true)];
    assert!(matches!(parse_args(rel, Err("gone".to_string())), Err(CliError::CurrentDirectory(_))));
}

// ----- folders and save paths -----

#[test]
fn project_add_and_remove_outcomes() {
    let a = project("/w/a");
    let b = project("/w/b");
    let mut config = ProjectConfiguration::from_loaded(Vec::new(), Vec::new());
    assert!(!config.should_scan());
    assert_eq!(config.add_project(a.clone()), Ok(ProjectChangeOutcome::AddedAndScan));
    assert!(config.should_scan());
    assert_eq!(config.add_project(b.clone()), Ok(ProjectChangeOutcome::AddedAndScan));
    assert_eq!(config.add_project(a.clone()), Err(RootOpError::ProjectAlreadyExists));
    assert_eq!(config.remove_project(&a), Ok(ProjectChangeOutcome::RemovedAndScan));
    assert_eq!(config.remove_project(&a), Err(RootOpError::ProjectMissing));
    assert_eq!(config.project_roots(), [b]);
    let g = GlobalEnvRoot::from_stored("/w/env".to_string(), &folder()).expect("env root");
    assert_eq!(config.add_global_env(g.clone()), Ok(GlobalEnvChangeOutcome::AddedRescan));
    assert_eq!(config.add_global_env(g.clone()), Err(RootOpError::GlobalEnvAlreadyExists));
    assert_eq!(config.remove_global_env(&g), Ok(GlobalEnvChangeOutcome::RemovedRescan));
    assert_eq!(config.remove_global_env(&g), Err(RootOpError::GlobalEnvMissing));
}

#[test]
fn missing_folder_is_rejected() {
    let gone = PathProbe { exists: false, is_dir: false, canonical: None };
    assert!(ProjectRoot::from_stored("/nowhere".to_string(), &gone).is_none());
    let canon = PathProbe { exists: true, is_dir: true, canonical: Some("/real/p".to_string()) };
    assert_eq!(ProjectRoot::from_stored("/link/p".to_string(), &canon).expect("root").as_path(), "/real/p");
}

#[test]
fn save_path_errors() {
    assert_eq!(SaveFilePath::parse_user_input("   ", None).unwrap_err(), SavePathError::Empty);
    let root = project("/w");
    assert!(matches!(
        SaveFilePath::parse_user_input("notes.txt", Some(&root)).unwrap_err(),
        SavePathError::NotHttpFile(_)
    ));
    let ok = SaveFilePath::parse_user_input("/abs/x.HTTP", None).expect("absolute path");
    assert_eq!(ok.to_path_buf(), "/abs/x.HTTP");
}

#[test]
fn state_file_override_wins() {
    assert_eq!(state_file_path(Some("/o/s.toml".to_string()), Some("/cfg".to_string())), Some("/o/s.toml".to_string()));
    assert_eq!(
        state_file_path(None, Some("/cfg".to_string())),
        Some(std::path::Path::new("/cfg").join("zagel").join("state.toml").to_string_lossy().into_owned())
    );
    assert_eq!(state_file_path(None, None), None);
}

// ----- workspace -----

#[test]
fn moving_a_collection_up_then_down_restores_the_order() {
    let mut ws = WorkspaceState::Configured(ConfiguredWorkspace {
        http_files: Vec::new(),
        http_file_order: vec!["a.http".to_string(), "b.http".to_string(), "c.http".to_string()],
        selection: None,
        all_environments: Vec::new(),
    });
    ws.move_collection_up("b.http");
    assert_eq!(ws.http_file_order(), ["b.http".to_string(), "a.http".to_string(), "c.http".to_string()]);
    ws.move_collection_down("b.http");
    assert_eq!(ws.http_file_order(), ["a.http".to_string(), "b.http".to_string(), "c.http".to_string()]);
    ws.move_collection_up("a.http");
    assert_eq!(ws.http_file_order(), ["a.http".to_string(), "b.http".to_string(), "c.http".to_string()]);
}

#[test]
fn swapping_requests_twice_keeps_the_selection() {
    let mut sel = Some(RequestId::HttpFile { path: "a.http".to_string(), index: 1 });
    zagel::workspace::swap_request_indices_in_selection_http(&mut sel, "a.http", 1, 2);
    assert_eq!(sel, Some(RequestId::HttpFile { path: "a.http".to_string(), index: 2 }));
    zagel::workspace::swap_request_indices_in_selection_http(&mut sel, "a.http", 1, 2);
    assert_eq!(sel, Some(RequestId::HttpFile { path: "a.http".to_string(), index: 1 }));
    zagel::workspace::swap_request_indices_in_selection_http(&mut sel, "b.http", 1, 2);
    assert_eq!(sel, Some(RequestId::HttpFile { path: "a.http".to_string(), index: 1 }));
}

#[test]
fn edit_marks_toggle_back() {
    let mut edit = EditState::On { selection: Vec::new() };
    let t = EditTarget::Collection("a.http".to_string());
    edit.toggle_selection(t.clone());
    assert!(matches!(&edit, EditState::On { selection } if selection.len() == 1));
    edit.toggle_selection(t);
    assert!(matches!(&edit, EditState::On { selection } if selection.is_empty()));
    let mut off = EditState::Off;
    off.toggle_selection(EditTarget::Collection("a.http".to_string()));
    assert!(!off.is_on());
}

// ----- history -----

#[test]
fn undo_then_redo_returns_to_the_same_editor() {
    let mut model = AppModel::default();
    let mut history = History::new(model.clone());
    for title in ["one", "two"] {
        let (next, _) = reduce(model, Action::TitleChanged(title.to_string()));
        model = next;
        history.record(Action::TitleChanged(title.to_string()), Focus::NoFocus, &model);
    }
    let keep = |_: &Focus, m: AppModel| m;
    let undo = history.undo(keep).expect("undo");
    assert_eq!(undo.model.draft.title, "one");
    let redo = history.redo(keep).expect("redo");
    assert_eq!(redo.model.draft.title, "two");
    assert!(history.redo(keep).is_none());
    history.undo(keep).expect("undo");
    history.undo(keep).expect("undo");
    assert!(history.undo(keep).is_none());
}

#[test]
fn recording_after_undo_drops_the_redo_steps() {
    let mut model = AppModel::default();
    let mut history = History::new(model.clone());
    let keep = |_: &Focus, m: AppModel| m;
    let (next, _) = reduce(model, Action::UrlChanged("https://a".to_string()));
    model = next;
    history.record(Action::UrlChanged("https://a".to_string()), Focus::NoFocus, &model);
    let undone = history.undo(keep).expect("undo").model;
    let (next, _) = reduce(undone, Action::UrlChanged("https://b".to_string()));
    history.record(Action::UrlChanged("https://b".to_string()), Focus::NoFocus, &next);
    assert!(history.redo(keep).is_none());
}

// ----- automation -----

fn text_step(action: &str, value: &str) -> RawStep {
    RawStep { action: action.to_string(), value: Some(StepValue::Text(value.to_string())), timeout_ms: None }
}

fn options() -> AutomationOptions {
    AutomationOptions {
        scenario_path: "/s/smoke.toml".to_string(),
        screenshot_dir: "/shots".to_string(),
        state_output_path: None,
        exit_when_done: true,
    }
}

#[test]
fn selectors_and_steps_are_checked() {
    let s = RequestSelector::parse("api/users.http#2").expect("selector");
    assert_eq!((s.path.as_str(), s.index), ("api/users.http", 2));
    assert_eq!(RequestSelector::parse("nohash").unwrap_err(), "request selector 'nohash' must be '<path>#<index>'");
    assert_eq!(RequestSelector::parse(" #1").unwrap_err(), "request selector path cannot be empty");
    assert_eq!(RequestSelector::parse("a.http#x").unwrap_err(), "invalid request index 'x'");
    assert!(matches!(ScenarioStep::from_raw(&text_step(" SEND ", "")), Ok(ScenarioStep::Send)));
    assert_eq!(ScenarioStep::from_raw(&text_step("fly", "x")).unwrap_err(), "unsupported action 'fly'");
    assert_eq!(
        ScenarioStep::from_raw(&text_step("wait_for_status", "abc")).unwrap_err(),
        "invalid status code 'abc'"
    );
    let int = RawStep { action: "screenshot".to_string(), value: Some(StepValue::Integer(3)), timeout_ms: None };
    assert_eq!(ScenarioStep::from_raw(&int).unwrap_err(), "action 'screenshot' expects a string value, got 3");
    assert!(matches!(
        ScenarioStep::from_raw(&text_step("wait_for_millis", "250")),
        Ok(ScenarioStep::WaitForMillis(250))
    ));
}

#[test]
fn scenario_loading_reports_the_first_bad_step() {
    let err = AutomationRuntime::load(None, Vec::new(), Vec::new(), options()).unwrap_err();
    assert_eq!(err, "scenario /s/smoke.toml has no [[step]] entries");
    let err = AutomationRuntime::load(None, vec![text_step("send", ""), text_step("nope", "")], Vec::new(), options())
        .unwrap_err();
    assert_eq!(err, "invalid scenario step #1 in /s/smoke.toml: unsupported action 'nope'");
    let rt = AutomationRuntime::load(None, vec![text_step("send", "")], Vec::new(), options()).expect("runtime");
    assert_eq!(rt.scenario_name, "smoke");
    assert_eq!(rt.steps.len(), 1);
}

#[test]
fn screenshot_names_are_sanitised() {
    assert_eq!(sanitize_screenshot_name("Main view!"), "Main-view");
    assert_eq!(sanitize_screenshot_name("***"), "shot");
}

fn workbench_with_requests() -> Workbench {
    let root = project("/w/proj");
    let config = ProjectConfiguration::from_loaded(vec![root], Vec::new());
    let state = AppState::default();
    let (mut wb, _) = Workbench::new(state, config, &[]);
    wb.http_files_loaded(vec![HttpFile {
        path: "/w/proj/api/users.http".to_string(),
        requests: vec![draft("List", Method::Get, "https://x/users"), draft("Make", Method::Post, "https://x/users")],
    }]);
    wb
}

#[test]
fn automation_runs_until_it_has_to_wait() {
    let mut wb = workbench_with_requests();
    let steps = vec![
        text_step("select_request", "api/users.http#1"),
        text_step("send", ""),
        text_step("wait_for_status", "201"),
        text_step("screenshot", "after send"),
    ];
    let mut rt = AutomationRuntime::load(Some("demo".to_string()), steps, Vec::new(), options()).expect("runtime");
    assert!(matches!(wb.drive_automation(&mut rt, 0), AutomationCommand::Send));
    assert_eq!(wb.draft.title, "Make");
    assert_eq!(rt.current_step, 2);
    assert!(matches!(wb.drive_automation(&mut rt, 5), AutomationCommand::Idle));
    assert!(rt.should_poll());
    wb.response_ready(Ok(ResponsePreview {
        status: Some(201),
        duration_ms: Some(3),
        body: Some("{}".to_string()),
        headers: Vec::new(),
        error: None,
    }));
    assert!(matches!(wb.drive_automation(&mut rt, 10), AutomationCommand::ResolveWindow));
    assert!(matches!(wb.window_resolved(&mut rt, true, 11), AutomationCommand::Screenshot));
    assert_eq!(
        rt.screenshot_target(),
        Some(std::path::Path::new("/shots").join("04-after-send.png").to_string_lossy().into_owned())
    );
    match wb.screenshot_saved(&mut rt, Ok(()), 12) {
        AutomationCommand::Finished(SnapshotOutcome::Completed) => {},
        other => panic!("unexpected command {other:?}"),
    }
    assert!(rt.done);
    assert_eq!(wb.status_line, "Automation 'demo' completed");
    assert!(matches!(wb.automation_reported(&rt, &SnapshotOutcome::Completed, None), AutomationCommand::CloseWindow));
}

#[test]
fn automation_wait_times_out() {
    let mut wb = workbench_with_requests();
    let mut rt = AutomationRuntime::load(None, vec![text_step("wait_for_text", "never")], Vec::new(), options())
        .expect("runtime");
    assert!(matches!(wb.drive_automation(&mut rt, 1_000), AutomationCommand::Idle));
    assert!(matches!(wb.drive_automation(&mut rt, 1_000 + 20_000), AutomationCommand::Idle));
    match wb.drive_automation(&mut rt, 1_000 + 20_001) {
        AutomationCommand::Finished(SnapshotOutcome::Failed(reason)) => {
            assert_eq!(reason, "timed out waiting for text 'never'");
        },
        other => panic!("unexpected command {other:?}"),
    }
    assert_eq!(wb.status_line, "Automation failed: timed out waiting for text 'never'");
    wb.automation_reported(&rt, &SnapshotOutcome::Failed("x".to_string()), Some("/o/s.json".to_string()));
    assert_eq!(wb.status_line, "Automation failed: x (state: /o/s.json)");
}

#[test]
fn unexpected_screenshot_fails_the_run() {
    let mut wb = workbench_with_requests();
    let mut rt = AutomationRuntime::load(None, vec![text_step("wait_for_millis", "5")], Vec::new(), options())
        .expect("runtime");
    assert!(rt.screenshot_target().is_none());
    match wb.screenshot_saved(&mut rt, Ok(()), 0) {
        AutomationCommand::Finished(SnapshotOutcome::Failed(reason)) => {
            assert_eq!(reason, "received a screenshot but no screenshot step is pending");
        },
        other => panic!("unexpected command {other:?}"),
    }
}

#[test]
fn state_snapshot_records_files_in_order() {
    let mut wb = workbench_with_requests();
    wb.apply_selection(&RequestId::HttpFile { path: "/w/proj/api/users.http".to_string(), index: 0 });
    let rt = AutomationRuntime::load(Some("s".to_string()), vec![text_step("send", "")], Vec::new(), options())
        .expect("runtime");
    let snap = wb.build_automation_state_snapshot(&rt, &SnapshotOutcome::Completed);
    assert_eq!(snap.outcome, "completed");
    assert_eq!(snap.failure_reason, None);
    assert_eq!(snap.progress.total_steps, 1);
    assert_eq!(snap.collections.len(), 1);
    assert_eq!(snap.collections[0].path, "/w/proj/api/users.http");
    assert_eq!(snap.collections[0].requests[1].method, "POST");
    let sel = snap.selected_request.expect("selection");
    assert_eq!((sel.path.as_str(), sel.index), ("/w/proj/api/users.http", 0));
    assert_eq!(snap.draft.title, "List");
    assert_eq!(snap.project_roots, vec!["/w/proj".to_string()]);
}

// ----- sidebar -----

#[test]
fn sidebar_tree_lists_folders_files_and_requests() {
    let files = vec![HttpFile {
        path: "/w/proj/api/users.http".to_string(),
        requests: vec![draft("List", Method::Get, "https://x/users")],
    }];
    let order = vec!["/w/proj/api/users.http".to_string()];
    let roots = vec![project("/w/proj")];
    let edit = EditState::Off;
    let collapsed: Vec<String> = Vec::new();
    let ctx = SidebarContext {
        http_files: &files,
        http_file_order: &order,
        selection: None,
        collapsed: &collapsed,
        project_roots: &roots,
        global_env_roots: &[],
        project_path_input: "",
        global_env_path_input: "",
        edit_state: &edit,
        icon_set: IconSet::Bootstrap,
    };
    let rows = sidebar_rows(&ctx);
    assert_eq!(rows.len(), 4);
    assert!(matches!(&rows[0], SidebarRow::Collection { name, depth: 0, .. } if name == "/w/proj"));
    assert!(matches!(&rows[1], SidebarRow::Collection { name, full_path, depth: 1, .. } if name == "api" && full_path == "/w/proj/api"));
    assert!(matches!(&rows[2], SidebarRow::Collection { name, depth: 2, file_path: Some(p), .. } if name == "users" && p == "/w/proj/api/users.http"));
    assert!(matches!(&rows[3], SidebarRow::Request { depth: 3, draft, .. } if draft.title == "List"));

    let collapsed = vec!["/w/proj/api".to_string()];
    let folded = sidebar_rows(&SidebarContext { collapsed: &collapsed, ..ctx });
    assert_eq!(folded.len(), 2);
    assert!(matches!(&folded[1], SidebarRow::Collection { collapsed: true, .. }));

    let id = RequestId::HttpFile { path: "/w/proj/api/users.http".to_string(), index: 0 };
    assert!(row_selected(&rows[2], Some(&id)));
    assert!(row_selected(&rows[3], Some(&id)));
    assert!(!row_selected(&rows[1], Some(&id)));
}

#[test]
fn icon_set_follows_the_environment_value() {
    assert_eq!(IconSet::from_env_value(Some("ASCII")), IconSet::Ascii);
    assert_eq!(IconSet::from_env_value(Some("fancy")), IconSet::Bootstrap);
    assert_eq!(IconSet::from_env_value(None), IconSet::Bootstrap);
}

// ----- more of the workbench -----

#[test]
fn resolve_request_finds_the_draft_and_its_file() {
    let wb = workbench_with_requests();
    let loaded = wb
        .resolve_request(&RequestId::HttpFile { path: "/w/proj/api/users.http".to_string(), index: 1 })
        .expect("request");
    assert_eq!(loaded.draft.title, "Make");
    assert_eq!(loaded.save_path, "/w/proj/api/users.http");
    assert!(wb.resolve_request(&RequestId::HttpFile { path: "/w/proj/api/users.http".to_string(), index: 2 }).is_none());
    assert!(wb.resolve_request(&RequestId::Unsaved(1)).is_none());
}

#[test]
fn response_syntax_follows_the_content_type() {
    let preview = |ct: &str| ResponsePreview {
        status: Some(200),
        duration_ms: None,
        body: None,
        headers: vec![("Content-Type".to_string(), ct.to_string())],
        error: None,
    };
    assert_eq!(zagel::response::response_syntax(&preview("application/json; charset=utf-8")), "json");
    assert_eq!(zagel::response::response_syntax(&preview("text/HTML")), "html");
    assert_eq!(zagel::response::response_syntax(&preview("text/plain")), "text");
}

#[test]
fn moving_marked_requests_moves_their_marks() {
    let mut edit = EditState::On {
        selection: vec![
            EditTarget::Request(RequestId::HttpFile { path: "a.http".to_string(), index: 0 }),
            EditTarget::Collection("b.http".to_string()),
        ],
    };
    zagel::workbench::swap_request_indices_in_edit_selection_http(&mut edit, "a.http", 0, 1);
    match &edit {
        EditState::On { selection } => {
            assert!(selection.contains(&EditTarget::Request(RequestId::HttpFile { path: "a.http".to_string(), index: 1 })));
            assert!(selection.contains(&EditTarget::Collection("b.http".to_string())));
            assert_eq!(selection.len(), 2);
        },
        EditState::Off => panic!("edit mode was on"),
    }
}

#[test]
fn environments_are_offered_by_name() {
    let mut wb = workbench_with_requests();
    wb.environments_loaded(vec![env("zeta", &[]), env("alpha", &[]), env("mid", &[])]);
    let names: Vec<&str> = wb.environments.iter().map(|e| e.name.as_str()).collect();
    assert_eq!(names, vec!["No environment", "alpha", "mid", "zeta"]);
}

#[test]
fn snapshot_lists_unordered_files_by_path() {
    let root = project("/w/p");
    let config = ProjectConfiguration::from_loaded(vec![root], Vec::new());
    let mut state = AppState::default();
    state.http_file_order = vec!["/w/p/m.http".to_string()];
    let (mut wb, _) = Workbench::new(state, config, &[]);
    wb.http_files_loaded(vec![
        HttpFile { path: "/w/p/z.http".to_string(), requests: Vec::new() },
        HttpFile { path: "/w/p/a.http".to_string(), requests: Vec::new() },
        HttpFile { path: "/w/p/m.http".to_string(), requests: Vec::new() },
    ]);
    let rt = AutomationRuntime::load(None, vec![text_step("send", "")], Vec::new(), options()).expect("runtime");
    let snap = wb.build_automation_state_snapshot(&rt, &SnapshotOutcome::Failed("boom".to_string()));
    let paths: Vec<&str> = snap.collections.iter().map(|c| c.path.as_str()).collect();
    assert_eq!(paths[0], "/w/p/m.http");
    assert_eq!(paths.len(), 3);
    assert!(paths[1] < paths[2]);
    assert_eq!(snap.outcome, "failed");
    assert_eq!(snap.failure_reason.as_deref(), Some("boom"));
}

#[test]
fn method_names_read_in_any_case() {
    assert_eq!(Method::from_name("post"), Method::Post);
    assert_eq!(Method::from_name("Patch"), Method::Patch);
    assert_eq!(Method::from_name("fetch"), Method::Get);
    let parsed = parse_http_content("delete https://x/1\n");
    assert_eq!(parsed[0].method, Method::Delete);
}

#[test]
fn the_deepest_project_folder_holds_a_file() {
    let outer = project("/w");
    let inner = project("/w/proj");
    let config = ProjectConfiguration::from_loaded(vec![outer, inner], Vec::new());
    let root = config.project_root_for_path("/w/proj/api/a.http").expect("root");
    assert_eq!(root.as_path(), "/w/proj");
    assert!(config.project_root_for_path("/elsewhere/a.http").is_none());
}

#[test]
fn graphql_variables_that_are_not_json_become_empty() {
    let v: serde_json::Value = serde_json::from_str(&build_graphql_body("{ me }", "not json")).expect("json body");
    assert_eq!(v["query"], "{ me }");
    assert_eq!(v["variables"], serde_json::Value::Object(serde_json::Map::new()));
}

#[test]
fn only_files_ending_in_http_hold_requests() {
    assert!(is_http_file("/p/api.http"));
    assert!(!is_http_file("/p/api.HTTP.bak"));
    assert!(!is_http_file("/p/api.rest"));
    assert!(!is_http_file("/p/http"));
}

#[test]
fn startup_reports_dropped_folders() {
    let (w, reaction) = Workbench::new(AppState::default(), ProjectConfiguration::from_loaded(Vec::new(), Vec::new()), &["gone".to_string()]);
    assert_eq!(w.status_line, "Ignored 1 invalid saved folder(s). Add a project folder to start.");
    assert!(reaction.persist);
    assert!(!reaction.rescan);
}

#[test]
fn set_environments_keeps_the_saved_active_name() {
    let (mut w, _) = Workbench::new(AppState::default(), ProjectConfiguration::from_loaded(Vec::new(), Vec::new()), &[]);
    w.state.active_environment = Some("prod".to_string());
    w.set_environments(vec![env("dev", &[]), env("prod", &[("HOST", "p")])]);
    assert_eq!(w.environments.len(), 3);
    assert_eq!(w.environments[0].name, "No environment");
    assert_eq!(w.active_environment, 2);
    assert_eq!(w.state.active_environment, Some("prod".to_string()));
    w.state.active_environment = Some("gone".to_string());
    w.set_environments(vec![env("dev", &[])]);
    assert_eq!(w.active_environment, 0);
    assert_eq!(w.state.active_environment, Some("No environment".to_string()));
}

#[test]
fn status_for_a_draft_names_what_the_active_environment_lacks() {
    let (mut w, _) = Workbench::new(AppState::default(), ProjectConfiguration::from_loaded(Vec::new(), Vec::new()), &[]);
    w.set_environments(vec![env("dev", &[("HOST", "h")])]);
    w.active_environment = 1;
    let d = draft("t", Method::Get, "https://{{HOST}}/{{PATH}}");
    w.update_status_with_draft("Saved", &d, &["{{TOKEN}}".to_string()]);
    assert_eq!(w.status_line, "Saved - Missing variables in dev: PATH, TOKEN");
}

#[test]
fn trimming_keeps_the_newest_actions_reachable_by_undo_and_redo() {
    let mut model = AppModel::default();
    let mut history = History::new(model.clone());
    for i in 0..505 {
        let title = format!("t{i}");
        let (next, _) = reduce(model, Action::TitleChanged(title.clone()));
        model = next;
        history.record(Action::TitleChanged(title), Focus::NoFocus, &model);
    }
    let keep = |_: &Focus, m: AppModel| m;
    for _ in 0..10 {
        history.undo(keep).expect("undo");
    }
    history.trim_if_needed(keep);
    let mut undos = 0;
    while history.undo(keep).is_some() {
        undos += 1;
    }
    assert_eq!(undos, 490);
    let mut redos = 0;
    let mut last = String::new();
    while let Some(r) = history.redo(keep) {
        redos += 1;
        last = r.model.draft.title;
    }
    assert_eq!(redos, 500);
    assert_eq!(last, "t504");
}

#[test]
fn a_token_expiry_the_clock_cannot_hold_is_refused() {
    let ok = token_from_reply(200, String::new(), Ok(("abc".to_string(), Some(60))), 1_000, true).expect("token");
    assert_eq!(ok.value, "abc");
    assert_eq!(ok.expires_at_ms, Some(61_000));
    let huge = token_from_reply(200, String::new(), Ok(("abc".to_string(), Some(u64::MAX))), u64::MAX, true).expect("token");
    assert_eq!(huge.expires_at_ms, Some(u64::MAX as u128 + u64::MAX as u128 * 1000));
    let refused = token_from_reply(200, String::new(), Ok(("abc".to_string(), Some(60))), 1_000, false);
    assert_eq!(refused.err().as_deref(), Some("OAuth2 token expires_in overflow: 60"));
    let no_expiry = token_from_reply(200, String::new(), Ok(("abc".to_string(), None)), 1_000, false).expect("token");
    assert_eq!(no_expiry.expires_at_ms, None);
}

#[test]
fn the_body_caption_says_how_the_body_is_shown() {
    assert_eq!(body_caption(ResponseDisplay::Pretty, Some(PrettyKind::Json)), "Body (pretty (JSON))");
    assert_eq!(body_caption(ResponseDisplay::Pretty, Some(PrettyKind::Html)), "Body (pretty (HTML; formatted view))");
    assert_eq!(body_caption(ResponseDisplay::Pretty, None), "Body (pretty (raw shown))");
    assert_eq!(body_caption(ResponseDisplay::Raw, Some(PrettyKind::Json)), "Body (raw)");
}

#[test]
fn lower_case_method_names_read_back() {
    for m in [Method::Get, Method::Post, Method::Put, Method::Delete, Method::Patch, Method::Head] {
        assert_eq!(Method::from_name(m.as_str()), m);
        assert_eq!(Method::from_name(m.as_str().to_lowercase().as_str()), m);
    }
    assert_eq!(Method::from_name("OPTIONS"), Method::Get);
}

#[test]
fn a_new_request_goes_last_in_the_selected_file_and_is_selected() {
    let mut wb = workbench_with_requests();
    wb.apply_selection(&RequestId::HttpFile { path: "/w/proj/api/users.http".to_string(), index: 0 });
    let (path, new_draft, root) = wb.add_request().expect("planned");
    assert_eq!(path, "/w/proj/api/users.http");
    assert_eq!(new_draft.title, "New request");
    assert_eq!(root, "/w/proj");
    let files = wb.workspace.http_files();
    assert_eq!(files[0].requests.len(), 3);
    assert_eq!(files[0].requests[2].title, "New request");
    assert_eq!(files[0].requests[0].title, "List");
    assert!(matches!(
        wb.workspace.selection(),
        Some(RequestId::HttpFile { path, index: 2 }) if path == "/w/proj/api/users.http"
    ));
    assert_eq!(wb.status_line, "Saving new request...");
}
