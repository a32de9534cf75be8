//! What is kept between runs: the configured folders, the chosen environment and theme,
//! and the order of the `.http` files.
use vstd::prelude::*;

use crate::paths::{join, path_join};
use crate::status::string_views;

verus! {

/// The colour theme.
#[derive(Debug, Clone, Copy, PartialEq, Eq, Structural)]
pub enum ThemeChoice {
    CatppuccinMocha,
    TokyoNightStorm,
    Nord,
}

impl Default for ThemeChoice {
    fn default() -> (r: Self)
        ensures
            r == ThemeChoice::CatppuccinMocha,
    {
        ThemeChoice::CatppuccinMocha
    }
}

/// The persisted state.
#[derive(Debug)]
pub struct AppState {
    pub active_environment: Option<String>,
    pub project_roots: Vec<String>,
    pub global_env_roots: Vec<String>,
    pub http_root: Option<String>,
    pub theme: ThemeChoice,
    pub http_file_order: Vec<String>,
}

#[verifier::ext_equal]
pub ghost struct AppStateView {
    pub active_environment: Option<Seq<char>>,
    pub project_roots: Seq<Seq<char>>,
    pub global_env_roots: Seq<Seq<char>>,
    pub http_root: Option<Seq<char>>,
    pub theme: ThemeChoice,
    pub http_file_order: Seq<Seq<char>>,
}

impl View for AppState {
    type V = AppStateView;

    open spec fn view(&self) -> AppStateView {
        AppStateView {
            active_environment: crate::cli::opt_seq(self.active_environment),
            project_roots: string_views(self.project_roots@),
            global_env_roots: string_views(self.global_env_roots@),
            http_root: crate::cli::opt_seq(self.http_root),
            theme: self.theme,
            http_file_order: string_views(self.http_file_order@),
        }
    }
}

/// The state of a first run.
pub open spec fn default_state() -> AppStateView {
    AppStateView {
        active_environment: None,
        project_roots: Seq::empty(),
        global_env_roots: Seq::empty(),
        http_root: None,
        theme: ThemeChoice::CatppuccinMocha,
        http_file_order: Seq::empty(),
    }
}

impl Default for AppState {
    fn default() -> (r: Self)
        ensures
            r@ == default_state(),
    {
        let r = AppState {
            active_environment: None,
            project_roots: Vec::new(),
            global_env_roots: Vec::new(),
            http_root: None,
            theme: ThemeChoice::CatppuccinMocha,
            http_file_order: Vec::new(),
        };
        assert(r@ =~= default_state());
        r
    }
}

fn clone_opt(o: &Option<String>) -> (r: Option<String>)
    ensures
        crate::cli::opt_seq(r) == crate::cli::opt_seq(*o),
{
    match o {
        Some(s) => Some(s.clone()),
        None => None,
    }
}

pub fn clone_strings(v: &Vec<String>) -> (r: Vec<String>)
    ensures
        string_views(r@) == string_views(v@),
{
    let mut r: Vec<String> = Vec::new();
    let mut i: usize = 0;
    while i < v.len()
        invariant
            i <= v@.len(),
            string_views(r@) == string_views(v@.take(i as int)),
        decreases v.len() - i,
    {
        let s = v[i].clone();
        let ghost before = string_views(r@);
        r.push(s);
        assert(string_views(r@) =~= before.push(s@));
        assert(string_views(v@.take(i + 1)) =~= string_views(v@.take(i as int)).push(v@[i as int]@));
        i = i + 1;
    }
    assert(v@.take(v@.len() as int) =~= v@);
    r
}

impl Clone for AppState {
    fn clone(&self) -> (r: Self)
        ensures
            r@ == self@,
    {
        AppState {
            active_environment: clone_opt(&self.active_environment),
            project_roots: clone_strings(&self.project_roots),
            global_env_roots: clone_strings(&self.global_env_roots),
            http_root: clone_opt(&self.http_root),
            theme: self.theme,
            http_file_order: clone_strings(&self.http_file_order),
        }
    }
}

/// The state after loading: the default when the file could not be read or parsed; a
/// state from before project folders existed has its single root taken as the project.
pub open spec fn load_spec(loaded: Option<AppStateView>) -> AppStateView {
    match loaded {
        None => default_state(),
        Some(s) => if s.project_roots.len() == 0 && s.http_root is Some {
            AppStateView { project_roots: seq![s.http_root->0], http_root: None, ..s }
        } else {
            s
        },
    }
}

impl AppState {
    /// The state to start from, given what was read from the state file (`None` when it
    /// could not be read or parsed).
    pub fn load(loaded: Option<AppState>) -> (r: Self)
        ensures
            r@ == load_spec(match loaded {
                Some(s) => Some(s@),
                None => None,
            }),
    {
        match loaded {
            None => AppState::default(),
            Some(mut state) => {
                if state.project_roots.len() == 0 {
                    let ghost before = state@;
                    if let Some(root) = state.http_root.take() {
                        state.project_roots.push(root);
                        assert(state@ =~= AppStateView {
                            project_roots: seq![before.http_root->0],
                            http_root: None,
                            ..before
                        }) by {
                            assert(string_views(state.project_roots@) =~= seq![root@]);
                        }
                    }
                }
                state
            },
        }
    }
}

/// Where the state file is: the override when one is set, else `zagel/state.toml` in the
/// user's configuration folder, if there is one.
pub fn state_file_path(override_path: Option<String>, config_dir: Option<String>) -> (r: Option<String>)
    ensures
        crate::cli::opt_seq(r) == match override_path {
            Some(p) => Some(p@),
            None => match config_dir {
                Some(d) => Some(path_join(path_join(d@, "zagel"@), "state.toml"@)),
                None => None,
            },
        },
{
    match override_path {
        Some(p) => Some(p),
        None => match config_dir {
            Some(d) => {
                let dir = join(d.as_str(), "zagel");
                Some(join(dir.as_str(), "state.toml"))
            },
            None => None,
        },
    }
}

} // verus!
