//! The command line: where the state file is, extra folders, and an automation scenario.
use vstd::prelude::*;

use crate::paths::{is_absolute, join, path_is_absolute, path_join};
use crate::text::str_eq;

verus! {

#[derive(Debug)]
pub struct AutomationOptions {
    pub scenario_path: String,
    pub screenshot_dir: String,
    pub state_output_path: Option<String>,
    pub exit_when_done: bool,
}

#[derive(Debug)]
pub struct LaunchOptions {
    pub state_file: Option<String>,
    pub project_roots: Vec<String>,
    pub global_env_roots: Vec<String>,
    pub automation: Option<AutomationOptions>,
}

#[derive(Debug)]
pub enum CliError {
    HelpRequested,
    MissingValue(&'static str),
    UnknownFlag(String),
    NonUtf8Flag,
    CurrentDirectory(String),
    MissingAutomationScenario,
}

pub ghost enum CliErrorView {
    HelpRequested,
    MissingValue(Seq<char>),
    UnknownFlag(Seq<char>),
    NonUtf8Flag,
    CurrentDirectory(Seq<char>),
    MissingAutomationScenario,
}

impl View for CliError {
    type V = CliErrorView;

    open spec fn view(&self) -> CliErrorView {
        match self {
            CliError::HelpRequested => CliErrorView::HelpRequested,
            CliError::MissingValue(f) => CliErrorView::MissingValue(f@),
            CliError::UnknownFlag(f) => CliErrorView::UnknownFlag(f@),
            CliError::NonUtf8Flag => CliErrorView::NonUtf8Flag,
            CliError::CurrentDirectory(e) => CliErrorView::CurrentDirectory(e@),
            CliError::MissingAutomationScenario => CliErrorView::MissingAutomationScenario,
        }
    }
}

impl CliError {
    /// The message shown for the error.
    pub fn message(&self) -> (m: String)
        ensures
            m@ == match self@ {
                CliErrorView::HelpRequested => "help requested"@,
                CliErrorView::MissingValue(f) => "missing value for "@ + f,
                CliErrorView::UnknownFlag(f) => "unknown flag: "@ + f,
                CliErrorView::NonUtf8Flag => "encountered a non-UTF8 argument"@,
                CliErrorView::CurrentDirectory(e) => "failed to read current directory: "@ + e,
                CliErrorView::MissingAutomationScenario => "automation flags were provided without --automation <scenario.toml>"@,
            },
    {
        match self {
            CliError::HelpRequested => String::from_str("help requested"),
            CliError::MissingValue(f) => crate::text::concat2("missing value for ", f),
            CliError::UnknownFlag(f) => crate::text::concat2("unknown flag: ", f.as_str()),
            CliError::NonUtf8Flag => String::from_str("encountered a non-UTF8 argument"),
            CliError::CurrentDirectory(e) => crate::text::concat2("failed to read current directory: ", e.as_str()),
            CliError::MissingAutomationScenario => String::from_str(
                "automation flags were provided without --automation <scenario.toml>",
            ),
        }
    }
}

/// The help text.
pub fn usage() -> (r: &'static str)
    ensures
        r@ == "Usage: zagel [OPTIONS]\n\nOptions:\n  --state-file <path>          Override persisted state path\n  --project-root <path>        Add project root override (repeatable)\n  --global-env-root <path>     Add global env root override (repeatable)\n  --automation <path>          Run automation scenario from TOML file\n  --screenshot-dir <path>      Output directory for automation screenshots\n  --automation-state-out <path> Write full automation state snapshot (JSON)\n  --exit-when-done             Exit app when automation scenario completes\n  -h, --help                   Show this help\n"@,
{
    "Usage: zagel [OPTIONS]\n\nOptions:\n  --state-file <path>          Override persisted state path\n  --project-root <path>        Add project root override (repeatable)\n  --global-env-root <path>     Add global env root override (repeatable)\n  --automation <path>          Run automation scenario from TOML file\n  --screenshot-dir <path>      Output directory for automation screenshots\n  --automation-state-out <path> Write full automation state snapshot (JSON)\n  --exit-when-done             Exit app when automation scenario completes\n  -h, --help                   Show this help\n"
}

// ---------------------------------------------------------------------------
// Parsing
// ---------------------------------------------------------------------------

/// What the arguments read so far set.
#[verifier::ext_equal]
pub ghost struct ArgsState {
    pub state_file: Option<Seq<char>>,
    pub project_roots: Seq<Seq<char>>,
    pub global_env_roots: Seq<Seq<char>>,
    pub scenario: Option<Seq<char>>,
    pub screenshot_dir: Option<Seq<char>>,
    pub state_output: Option<Seq<char>>,
    pub exit_when_done: bool,
}

pub open spec fn initial_args_state() -> ArgsState {
    ArgsState {
        state_file: None,
        project_roots: Seq::empty(),
        global_env_roots: Seq::empty(),
        scenario: None,
        screenshot_dir: None,
        state_output: None,
        exit_when_done: false,
    }
}

/// An argument path made absolute against the current directory.
pub open spec fn resolve_path_spec(raw: Seq<char>, cwd: Result<Seq<char>, Seq<char>>) -> Result<Seq<char>, CliErrorView> {
    if path_is_absolute(raw) {
        Ok(raw)
    } else {
        match cwd {
            Ok(c) => Ok(path_join(c, raw)),
            Err(e) => Err(CliErrorView::CurrentDirectory(e)),
        }
    }
}

/// The flags that take a path.
pub open spec fn is_path_flag(f: Seq<char>) -> bool {
    f == "--state-file"@ || f == "--project-root"@ || f == "--global-env-root"@ || f == "--automation"@
        || f == "--screenshot-dir"@ || f == "--automation-state-out"@
}

/// What a path flag with value `v` sets.
pub open spec fn set_path_flag(st: ArgsState, f: Seq<char>, v: Seq<char>) -> ArgsState {
    if f == "--state-file"@ {
        ArgsState { state_file: Some(v), ..st }
    } else if f == "--project-root"@ {
        ArgsState { project_roots: st.project_roots.push(v), ..st }
    } else if f == "--global-env-root"@ {
        ArgsState { global_env_roots: st.global_env_roots.push(v), ..st }
    } else if f == "--automation"@ {
        ArgsState { scenario: Some(v), ..st }
    } else if f == "--screenshot-dir"@ {
        ArgsState { screenshot_dir: Some(v), ..st }
    } else {
        ArgsState { state_output: Some(v), ..st }
    }
}

/// The value after a path flag: missing at the end or when it looks like a flag.
pub open spec fn flag_value(args: Seq<(Seq<char>, bool)>, i: int, f: Seq<char>, cwd: Result<Seq<char>, Seq<char>>) -> Result<Seq<char>, CliErrorView> {
    if i >= args.len() {
        Err(CliErrorView::MissingValue(f))
    } else if args[i].1 && args[i].0.len() > 0 && args[i].0[0] == '-' {
        Err(CliErrorView::MissingValue(f))
    } else {
        resolve_path_spec(args[i].0, cwd)
    }
}

/// Reading the arguments from position `i` on. Each argument is its text and whether it
/// was valid UTF-8.
pub open spec fn parse_from(args: Seq<(Seq<char>, bool)>, i: int, st: ArgsState, cwd: Result<Seq<char>, Seq<char>>) -> Result<ArgsState, CliErrorView>
    decreases args.len() - i,
{
    if i < 0 || i >= args.len() {
        Ok(st)
    } else {
        let f = args[i].0;
        if !args[i].1 {
            Err(CliErrorView::NonUtf8Flag)
        } else if f == "-h"@ || f == "--help"@ {
            Err(CliErrorView::HelpRequested)
        } else if f == "--exit-when-done"@ {
            parse_from(args, i + 1, ArgsState { exit_when_done: true, ..st }, cwd)
        } else if is_path_flag(f) {
            if i + 1 >= args.len() {
                Err(CliErrorView::MissingValue(f))
            } else {
                match flag_value(args, i + 1, f, cwd) {
                    Err(e) => Err(e),
                    Ok(v) => parse_from(args, i + 2, set_path_flag(st, f, v), cwd),
                }
            }
        } else {
            Err(CliErrorView::UnknownFlag(f))
        }
    }
}

pub ghost struct AutomationView {
    pub scenario_path: Seq<char>,
    pub screenshot_dir: Seq<char>,
    pub state_output_path: Option<Seq<char>>,
    pub exit_when_done: bool,
}

pub ghost struct LaunchView {
    pub state_file: Option<Seq<char>>,
    pub project_roots: Seq<Seq<char>>,
    pub global_env_roots: Seq<Seq<char>>,
    pub automation: Option<AutomationView>,
}

/// The options the arguments give: automation is set up when any automation flag is
/// present, and then needs a scenario; screenshots default to `artifacts/ui`.
pub open spec fn parse_args_spec(args: Seq<(Seq<char>, bool)>, cwd: Result<Seq<char>, Seq<char>>) -> Result<LaunchView, CliErrorView> {
    match parse_from(args, 0, initial_args_state(), cwd) {
        Err(e) => Err(e),
        Ok(st) => {
            let base = LaunchView {
                state_file: st.state_file,
                project_roots: st.project_roots,
                global_env_roots: st.global_env_roots,
                automation: None,
            };
            if st.scenario is Some || st.screenshot_dir is Some || st.state_output is Some || st.exit_when_done {
                match st.scenario {
                    None => Err(CliErrorView::MissingAutomationScenario),
                    Some(scenario) => match (match st.screenshot_dir {
                        Some(d) => Ok(d),
                        None => resolve_path_spec("artifacts/ui"@, cwd),
                    }) {
                        Err(e) => Err(e),
                        Ok(dir) => Ok(LaunchView {
                            automation: Some(AutomationView {
                                scenario_path: scenario,
                                screenshot_dir: dir,
                                state_output_path: st.state_output,
                                exit_when_done: st.exit_when_done,
                            }),
                            ..base
                        }),
                    },
                }
            } else {
                Ok(base)
            }
        },
    }
}

pub open spec fn arg_views(args: Seq<(String, bool)>) -> Seq<(Seq<char>, bool)> {
    args.map_values(|a: (String, bool)| (a.0@, a.1))
}

pub open spec fn cwd_view(cwd: Result<String, String>) -> Result<Seq<char>, Seq<char>> {
    match cwd {
        Ok(c) => Ok(c@),
        Err(e) => Err(e@),
    }
}

pub open spec fn opt_seq(o: Option<String>) -> Option<Seq<char>> {
    match o {
        Some(s) => Some(s@),
        None => None,
    }
}

impl View for LaunchOptions {
    type V = LaunchView;

    open spec fn view(&self) -> LaunchView {
        LaunchView {
            state_file: opt_seq(self.state_file),
            project_roots: crate::status::string_views(self.project_roots@),
            global_env_roots: crate::status::string_views(self.global_env_roots@),
            automation: match self.automation {
                Some(a) => Some(AutomationView {
                    scenario_path: a.scenario_path@,
                    screenshot_dir: a.screenshot_dir@,
                    state_output_path: opt_seq(a.state_output_path),
                    exit_when_done: a.exit_when_done,
                }),
                None => None,
            },
        }
    }
}

/// An argument path made absolute against the current directory.
fn resolve_path(raw: &str, cwd: &Result<String, String>) -> (r: Result<String, CliError>)
    ensures
        match r {
            Ok(p) => resolve_path_spec(raw@, cwd_view(*cwd)) == Ok::<Seq<char>, CliErrorView>(p@),
            Err(e) => resolve_path_spec(raw@, cwd_view(*cwd)) == Err::<Seq<char>, CliErrorView>(e@),
        },
{
    if is_absolute(raw) {
        Ok(String::from_str(raw))
    } else {
        match cwd {
            Ok(c) => Ok(join(c.as_str(), raw)),
            Err(e) => Err(CliError::CurrentDirectory(e.clone())),
        }
    }
}

/// The value after a path flag.
fn next_path(args: &Vec<(String, bool)>, i: usize, flag: &'static str, cwd: &Result<String, String>) -> (r: Result<String, CliError>)
    ensures
        match r {
            Ok(p) => flag_value(arg_views(args@), i as int, flag@, cwd_view(*cwd)) == Ok::<Seq<char>, CliErrorView>(p@),
            Err(e) => flag_value(arg_views(args@), i as int, flag@, cwd_view(*cwd)) == Err::<Seq<char>, CliErrorView>(e@),
        },
{
    if i >= args.len() {
        return Err(CliError::MissingValue(flag));
    }
    let (raw, utf8) = (&args[i].0, args[i].1);
    let v = crate::text::chars_of(raw.as_str());
    if utf8 && v.len() > 0 && v[0] == '-' {
        return Err(CliError::MissingValue(flag));
    }
    resolve_path(raw.as_str(), cwd)
}


/// The value of a path flag, kept as the state says.
fn flag_literal(f: &str) -> (r: Option<&'static str>)
    ensures
        match r {
            Some(l) => l@ == f@ && is_path_flag(f@),
            None => !is_path_flag(f@),
        },
{
    if str_eq(f, "--state-file") {
        Some("--state-file")
    } else if str_eq(f, "--project-root") {
        Some("--project-root")
    } else if str_eq(f, "--global-env-root") {
        Some("--global-env-root")
    } else if str_eq(f, "--automation") {
        Some("--automation")
    } else if str_eq(f, "--screenshot-dir") {
        Some("--screenshot-dir")
    } else if str_eq(f, "--automation-state-out") {
        Some("--automation-state-out")
    } else {
        None
    }
}

/// Reads the launch options from the arguments (each its text and whether it was valid
/// UTF-8), with relative paths taken from `cwd` (or the reason it could not be read).
pub fn parse_args(args: Vec<(String, bool)>, cwd: Result<String, String>) -> (r: Result<LaunchOptions, CliError>)
    ensures
        match r {
            Ok(o) => parse_args_spec(arg_views(args@), cwd_view(cwd)) == Ok::<LaunchView, CliErrorView>(o@),
            Err(e) => parse_args_spec(arg_views(args@), cwd_view(cwd)) == Err::<LaunchView, CliErrorView>(e@),
        },
{
    let ghost av = arg_views(args@);
    let ghost c = cwd_view(cwd);
    let mut state_file: Option<String> = None;
    let mut project_roots: Vec<String> = Vec::new();
    let mut global_env_roots: Vec<String> = Vec::new();
    let mut scenario: Option<String> = None;
    let mut screenshot_dir: Option<String> = None;
    let mut state_output: Option<String> = None;
    let mut exit_when_done = false;
    let mut i: usize = 0;
    assert(crate::status::string_views(project_roots@) =~= Seq::<Seq<char>>::empty());
    assert(crate::status::string_views(global_env_roots@) =~= Seq::<Seq<char>>::empty());
    while i < args.len()
        invariant
            i <= args@.len(),
            av == arg_views(args@),
            c == cwd_view(cwd),
            parse_from(av, 0, initial_args_state(), c) == parse_from(
                av,
                i as int,
                ArgsState {
                    state_file: opt_seq(state_file),
                    project_roots: crate::status::string_views(project_roots@),
                    global_env_roots: crate::status::string_views(global_env_roots@),
                    scenario: opt_seq(scenario),
                    screenshot_dir: opt_seq(screenshot_dir),
                    state_output: opt_seq(state_output),
                    exit_when_done,
                },
                c,
            ),
        decreases args.len() - i,
    {
        let ghost st = ArgsState {
            state_file: opt_seq(state_file),
            project_roots: crate::status::string_views(project_roots@),
            global_env_roots: crate::status::string_views(global_env_roots@),
            scenario: opt_seq(scenario),
            screenshot_dir: opt_seq(screenshot_dir),
            state_output: opt_seq(state_output),
            exit_when_done,
        };
        assert(av[i as int] == (args@[i as int].0@, args@[i as int].1));
        if !args[i].1 {
            return Err(CliError::NonUtf8Flag);
        }
        let f = args[i].0.as_str();
        if str_eq(f, "-h") || str_eq(f, "--help") {
            return Err(CliError::HelpRequested);
        }
        if str_eq(f, "--exit-when-done") {
            exit_when_done = true;
            i = i + 1;
        } else {
            let name = match flag_literal(f) {
                Some(l) => l,
                None => {
                    return Err(CliError::UnknownFlag(String::from_str(f)));
                },
            };
            let v = match next_path(&args, i + 1, name, &cwd) {
                Ok(v) => v,
                Err(e) => {
                    return Err(e);
                },
            };
            if str_eq(name, "--state-file") {
                state_file = Some(v);
            } else if str_eq(name, "--project-root") {
                let ghost before = crate::status::string_views(project_roots@);
                project_roots.push(v);
                assert(crate::status::string_views(project_roots@) =~= before.push(v@));
            } else if str_eq(name, "--global-env-root") {
                let ghost before = crate::status::string_views(global_env_roots@);
                global_env_roots.push(v);
                assert(crate::status::string_views(global_env_roots@) =~= before.push(v@));
            } else if str_eq(name, "--automation") {
                scenario = Some(v);
            } else if str_eq(name, "--screenshot-dir") {
                screenshot_dir = Some(v);
            } else {
                state_output = Some(v);
            }
            i = i + 2;
        }
    }
    let any_automation = scenario.is_some() || screenshot_dir.is_some() || state_output.is_some() || exit_when_done;
    let automation = if any_automation {
        let scenario_path = match scenario {
            Some(p) => p,
            None => {
                return Err(CliError::MissingAutomationScenario);
            },
        };
        let dir = match screenshot_dir {
            Some(d) => d,
            None => match resolve_path("artifacts/ui", &cwd) {
                Ok(d) => d,
                Err(e) => {
                    return Err(e);
                },
            },
        };
        Some(AutomationOptions { scenario_path, screenshot_dir: dir, state_output_path: state_output, exit_when_done })
    } else {
        None
    };
    Ok(LaunchOptions { state_file, project_roots, global_env_roots, automation })
}

} // verus!
