//! Validated folder and file paths entered by the user or loaded from saved state.
use vstd::prelude::*;
use vstd::std_specs::cmp::PartialEqSpec;

use crate::paths::{
    extension, is_absolute, join, path_extension, path_is_absolute, path_join,
    path_set_extension, set_extension,
};
use crate::text::{chars_of, eq_ignore_ascii_case, eq_ignore_case, is_blank, push_str, str_eq, trim, trim_string};

verus! {

/// What the file system says about a path: whether it exists, whether it is a folder,
/// and its canonical form when that could be computed.
#[derive(Debug)]
pub struct PathProbe {
    pub exists: bool,
    pub is_dir: bool,
    pub canonical: Option<String>,
}

#[derive(Debug)]
pub enum RootPathError {
    Empty,
    CannotResolveCurrentDirectory,
    NotFound(String),
    NotDirectory(String),
}

/// A root path error as plain values.
pub ghost enum RootPathErrorView {
    Empty,
    CannotResolveCurrentDirectory,
    NotFound(Seq<char>),
    NotDirectory(Seq<char>),
}

impl View for RootPathError {
    type V = RootPathErrorView;

    open spec fn view(&self) -> RootPathErrorView {
        match self {
            RootPathError::Empty => RootPathErrorView::Empty,
            RootPathError::CannotResolveCurrentDirectory => RootPathErrorView::CannotResolveCurrentDirectory,
            RootPathError::NotFound(p) => RootPathErrorView::NotFound(p@),
            RootPathError::NotDirectory(p) => RootPathErrorView::NotDirectory(p@),
        }
    }
}

impl PartialEq for RootPathError {
    fn eq(&self, other: &Self) -> (r: bool) {
        match (self, other) {
            (RootPathError::Empty, RootPathError::Empty) => true,
            (RootPathError::CannotResolveCurrentDirectory, RootPathError::CannotResolveCurrentDirectory) => true,
            (RootPathError::NotFound(a), RootPathError::NotFound(b)) => str_eq(a.as_str(), b.as_str()),
            (RootPathError::NotDirectory(a), RootPathError::NotDirectory(b)) => str_eq(a.as_str(), b.as_str()),
            _ => false,
        }
    }
}

impl Eq for RootPathError {

}

impl vstd::std_specs::cmp::PartialEqSpecImpl for RootPathError {
    open spec fn obeys_eq_spec() -> bool {
        true
    }

    open spec fn eq_spec(&self, other: &RootPathError) -> bool {
        self@ == other@
    }
}

impl RootPathError {
    /// The message shown for the error.
    pub fn message(&self) -> (m: String)
        ensures
            m@ == match self@ {
                RootPathErrorView::Empty => "Path cannot be empty"@,
                RootPathErrorView::CannotResolveCurrentDirectory => "Cannot resolve current directory"@,
                RootPathErrorView::NotFound(p) => "Path not found: "@ + p,
                RootPathErrorView::NotDirectory(p) => "Path is not a directory: "@ + p,
            },
    {
        match self {
            RootPathError::Empty => String::from_str("Path cannot be empty"),
            RootPathError::CannotResolveCurrentDirectory => String::from_str("Cannot resolve current directory"),
            RootPathError::NotFound(p) => {
                let mut m = String::from_str("Path not found: ");
                push_str(&mut m, p.as_str());
                m
            },
            RootPathError::NotDirectory(p) => {
                let mut m = String::from_str("Path is not a directory: ");
                push_str(&mut m, p.as_str());
                m
            },
        }
    }
}

/// The absolute path a user's folder input names: trimmed, and relative paths taken from
/// the current directory.
pub open spec fn resolve_input(input: Seq<char>, cwd: Option<Seq<char>>) -> Result<Seq<char>, RootPathErrorView> {
    let t = trim(input);
    if t.len() == 0 {
        Err(RootPathErrorView::Empty)
    } else if path_is_absolute(t) {
        Ok(t)
    } else {
        match cwd {
            None => Err(RootPathErrorView::CannotResolveCurrentDirectory),
            Some(c) => Ok(path_join(c, t)),
        }
    }
}

/// A folder that exists, in canonical form when it could be canonicalized.
pub open spec fn check_folder(path: Seq<char>, exists: bool, is_dir: bool, canonical: Option<Seq<char>>) -> Result<Seq<char>, RootPathErrorView> {
    if !exists {
        Err(RootPathErrorView::NotFound(path))
    } else if !is_dir {
        Err(RootPathErrorView::NotDirectory(path))
    } else {
        Ok(
            match canonical {
                Some(c) => c,
                None => path,
            },
        )
    }
}

pub open spec fn opt_view(o: Option<String>) -> Option<Seq<char>> {
    match o {
        Some(s) => Some(s@),
        None => None,
    }
}

pub open spec fn opt_str_view(o: Option<&str>) -> Option<Seq<char>> {
    match o {
        Some(s) => Some(s@),
        None => None,
    }
}

/// What a folder check gives, as plain values.
pub open spec fn root_result_view(r: Result<DirectoryRoot, RootPathError>) -> Result<Seq<char>, RootPathErrorView> {
    match r {
        Ok(d) => Ok(d@),
        Err(e) => Err(e@),
    }
}

#[derive(Debug)]
pub struct DirectoryRoot(String);

impl View for DirectoryRoot {
    type V = Seq<char>;

    closed spec fn view(&self) -> Seq<char> {
        self.0@
    }
}

impl Clone for DirectoryRoot {
    fn clone(&self) -> (r: Self)
        ensures
            r@ == self@,
    {
        DirectoryRoot(self.0.clone())
    }
}

impl PartialEq for DirectoryRoot {
    fn eq(&self, other: &Self) -> (r: bool) {
        str_eq(self.0.as_str(), other.0.as_str())
    }
}

impl Eq for DirectoryRoot {

}

impl vstd::std_specs::cmp::PartialEqSpecImpl for DirectoryRoot {
    open spec fn obeys_eq_spec() -> bool {
        true
    }

    open spec fn eq_spec(&self, other: &DirectoryRoot) -> bool {
        self@ == other@
    }
}

impl DirectoryRoot {
    /// The absolute path a user's input names, before the folder is checked.
    pub fn resolve_user_input(input: &str, cwd: Option<&str>) -> (r: Result<String, RootPathError>)
        ensures
            match r {
                Ok(p) => resolve_input(input@, opt_str_view(cwd)) == Ok::<Seq<char>, RootPathErrorView>(p@),
                Err(e) => resolve_input(input@, opt_str_view(cwd)) == Err::<Seq<char>, RootPathErrorView>(e@),
            },
    {
        let trimmed = trim_string(input);
        if trimmed.as_str().unicode_len() == 0 {
            return Err(RootPathError::Empty);
        }
        if is_absolute(trimmed.as_str()) {
            Ok(trimmed)
        } else {
            match cwd {
                None => Err(RootPathError::CannotResolveCurrentDirectory),
                Some(c) => Ok(join(c, trimmed.as_str())),
            }
        }
    }

    /// The folder at `input` (relative to `cwd`), given what the file system says about
    /// the resolved path.
    pub fn parse_user_input(input: &str, cwd: Option<&str>, probe: &PathProbe) -> (r: Result<Self, RootPathError>)
        ensures
            root_result_view(r) == match resolve_input(input@, opt_str_view(cwd)) {
                Ok(p) => check_folder(p, probe.exists, probe.is_dir, opt_view(probe.canonical)),
                Err(e) => Err(e),
            },
    {
        match DirectoryRoot::resolve_user_input(input, cwd) {
            Ok(p) => DirectoryRoot::from_path(p, probe),
            Err(e) => Err(e),
        }
    }

    /// The folder at `path`, given what the file system says about it.
    pub fn from_path(path: String, probe: &PathProbe) -> (r: Result<Self, RootPathError>)
        ensures
            root_result_view(r) == check_folder(path@, probe.exists, probe.is_dir, opt_view(probe.canonical)),
    {
        if !probe.exists {
            return Err(RootPathError::NotFound(path));
        }
        if !probe.is_dir {
            return Err(RootPathError::NotDirectory(path));
        }
        match &probe.canonical {
            Some(c) => Ok(DirectoryRoot(c.clone())),
            None => Ok(DirectoryRoot(path)),
        }
    }

    pub fn as_path(&self) -> (p: &str)
        ensures
            p@ == self@,
    {
        self.0.as_str()
    }

    pub fn to_path_buf(&self) -> (p: String)
        ensures
            p@ == self@,
    {
        self.0.clone()
    }
}

/// A project folder: requests and environments are scanned below it.
#[derive(Debug)]
pub struct ProjectRoot(DirectoryRoot);

impl View for ProjectRoot {
    type V = Seq<char>;

    closed spec fn view(&self) -> Seq<char> {
        self.0@
    }
}

impl Clone for ProjectRoot {
    fn clone(&self) -> (r: Self)
        ensures
            r@ == self@,
    {
        ProjectRoot(self.0.clone())
    }
}

impl PartialEq for ProjectRoot {
    fn eq(&self, other: &Self) -> (r: bool) {
        str_eq(self.0.as_path(), other.0.as_path())
    }
}

impl Eq for ProjectRoot {

}

impl vstd::std_specs::cmp::PartialEqSpecImpl for ProjectRoot {
    open spec fn obeys_eq_spec() -> bool {
        true
    }

    open spec fn eq_spec(&self, other: &ProjectRoot) -> bool {
        self@ == other@
    }
}

/// A folder scanned only for environment files, shared by all projects.
#[derive(Debug)]
pub struct GlobalEnvRoot(DirectoryRoot);

impl View for GlobalEnvRoot {
    type V = Seq<char>;

    closed spec fn view(&self) -> Seq<char> {
        self.0@
    }
}

impl Clone for GlobalEnvRoot {
    fn clone(&self) -> (r: Self)
        ensures
            r@ == self@,
    {
        GlobalEnvRoot(self.0.clone())
    }
}

impl PartialEq for GlobalEnvRoot {
    fn eq(&self, other: &Self) -> (r: bool) {
        str_eq(self.0.as_path(), other.0.as_path())
    }
}

impl Eq for GlobalEnvRoot {

}

impl vstd::std_specs::cmp::PartialEqSpecImpl for GlobalEnvRoot {
    open spec fn obeys_eq_spec() -> bool {
        true
    }

    open spec fn eq_spec(&self, other: &GlobalEnvRoot) -> bool {
        self@ == other@
    }
}

impl ProjectRoot {
    pub fn parse_user_input(input: &str, cwd: Option<&str>, probe: &PathProbe) -> (r: Result<Self, RootPathError>)
        ensures
            match r {
                Ok(p) => Ok::<Seq<char>, RootPathErrorView>(p@),
                Err(e) => Err(e@),
            } == match resolve_input(input@, opt_str_view(cwd)) {
                Ok(p) => check_folder(p, probe.exists, probe.is_dir, opt_view(probe.canonical)),
                Err(e) => Err(e),
            },
    {
        match DirectoryRoot::parse_user_input(input, cwd, probe) {
            Ok(d) => Ok(ProjectRoot(d)),
            Err(e) => Err(e),
        }
    }

    /// A saved project folder, kept only when it still is a folder.
    pub fn from_stored(path: String, probe: &PathProbe) -> (r: Option<Self>)
        ensures
            match r {
                Some(p) => check_folder(path@, probe.exists, probe.is_dir, opt_view(probe.canonical)) == Ok::<Seq<char>, RootPathErrorView>(p@),
                None => check_folder(path@, probe.exists, probe.is_dir, opt_view(probe.canonical)) is Err,
            },
    {
        match DirectoryRoot::from_path(path, probe) {
            Ok(d) => Some(ProjectRoot(d)),
            Err(_) => None,
        }
    }

    pub fn as_path(&self) -> (p: &str)
        ensures
            p@ == self@,
    {
        self.0.as_path()
    }

    pub fn to_path_buf(&self) -> (p: String)
        ensures
            p@ == self@,
    {
        self.0.to_path_buf()
    }
}

impl GlobalEnvRoot {
    pub fn parse_user_input(input: &str, cwd: Option<&str>, probe: &PathProbe) -> (r: Result<Self, RootPathError>)
        ensures
            match r {
                Ok(p) => Ok::<Seq<char>, RootPathErrorView>(p@),
                Err(e) => Err(e@),
            } == match resolve_input(input@, opt_str_view(cwd)) {
                Ok(p) => check_folder(p, probe.exists, probe.is_dir, opt_view(probe.canonical)),
                Err(e) => Err(e),
            },
    {
        match DirectoryRoot::parse_user_input(input, cwd, probe) {
            Ok(d) => Ok(GlobalEnvRoot(d)),
            Err(e) => Err(e),
        }
    }

    /// A saved global environment folder, kept only when it still is a folder.
    pub fn from_stored(path: String, probe: &PathProbe) -> (r: Option<Self>)
        ensures
            match r {
                Some(p) => check_folder(path@, probe.exists, probe.is_dir, opt_view(probe.canonical)) == Ok::<Seq<char>, RootPathErrorView>(p@),
                None => check_folder(path@, probe.exists, probe.is_dir, opt_view(probe.canonical)) is Err,
            },
    {
        match DirectoryRoot::from_path(path, probe) {
            Ok(d) => Some(GlobalEnvRoot(d)),
            Err(_) => None,
        }
    }

    pub fn as_path(&self) -> (p: &str)
        ensures
            p@ == self@,
    {
        self.0.as_path()
    }

    pub fn to_path_buf(&self) -> (p: String)
        ensures
            p@ == self@,
    {
        self.0.to_path_buf()
    }
}

// ---------------------------------------------------------------------------
// Save paths
// ---------------------------------------------------------------------------

#[derive(Debug)]
pub enum SavePathError {
    Empty,
    MissingProjectRootForRelativePath,
    NotHttpFile(String),
}

pub ghost enum SavePathErrorView {
    Empty,
    MissingProjectRootForRelativePath,
    NotHttpFile(Seq<char>),
}

impl View for SavePathError {
    type V = SavePathErrorView;

    open spec fn view(&self) -> SavePathErrorView {
        match self {
            SavePathError::Empty => SavePathErrorView::Empty,
            SavePathError::MissingProjectRootForRelativePath => SavePathErrorView::MissingProjectRootForRelativePath,
            SavePathError::NotHttpFile(p) => SavePathErrorView::NotHttpFile(p@),
        }
    }
}

impl Clone for SavePathError {
    fn clone(&self) -> (r: Self)
        ensures
            r@ == self@,
    {
        match self {
            SavePathError::Empty => SavePathError::Empty,
            SavePathError::MissingProjectRootForRelativePath => SavePathError::MissingProjectRootForRelativePath,
            SavePathError::NotHttpFile(p) => SavePathError::NotHttpFile(p.clone()),
        }
    }
}

impl PartialEq for SavePathError {
    fn eq(&self, other: &Self) -> (r: bool) {
        match (self, other) {
            (SavePathError::Empty, SavePathError::Empty) => true,
            (SavePathError::MissingProjectRootForRelativePath, SavePathError::MissingProjectRootForRelativePath) => true,
            (SavePathError::NotHttpFile(a), SavePathError::NotHttpFile(b)) => str_eq(a.as_str(), b.as_str()),
            _ => false,
        }
    }
}

impl Eq for SavePathError {

}

impl vstd::std_specs::cmp::PartialEqSpecImpl for SavePathError {
    open spec fn obeys_eq_spec() -> bool {
        true
    }

    open spec fn eq_spec(&self, other: &SavePathError) -> bool {
        self@ == other@
    }
}

/// The message shown for a save path error.
pub open spec fn save_path_error_message(e: SavePathErrorView) -> Seq<char> {
    match e {
        SavePathErrorView::Empty => "Save path cannot be empty"@,
        SavePathErrorView::MissingProjectRootForRelativePath => "Relative save paths require at least one project root"@,
        SavePathErrorView::NotHttpFile(p) => "Save path must target a .http file: "@ + p,
    }
}

impl SavePathError {
    /// The message shown for the error.
    pub fn message(&self) -> (m: String)
        ensures
            m@ == save_path_error_message(self@),
    {
        match self {
            SavePathError::Empty => String::from_str("Save path cannot be empty"),
            SavePathError::MissingProjectRootForRelativePath => String::from_str(
                "Relative save paths require at least one project root",
            ),
            SavePathError::NotHttpFile(p) => {
                let mut m = String::from_str("Save path must target a .http file: ");
                push_str(&mut m, p.as_str());
                m
            },
        }
    }
}

/// Whether an extension makes a path an `.http` file (in any case).
pub open spec fn is_http_extension(ext: Option<Seq<char>>) -> bool {
    match ext {
        Some(e) => eq_ignore_case(e, "http"@),
        None => false,
    }
}

/// A path given an `.http` extension when it has none.
pub open spec fn with_default_extension(p: Seq<char>) -> Seq<char> {
    if path_extension(p) is None {
        path_set_extension(p, "http"@)
    } else {
        p
    }
}

/// The save path a user's input names: trimmed, relative paths taken from the default
/// project root, `.http` added when there is no extension, and only `.http` files accepted.
pub open spec fn save_path_spec(input: Seq<char>, root: Option<Seq<char>>) -> Result<Seq<char>, SavePathErrorView> {
    let t = trim(input);
    if t.len() == 0 {
        Err(SavePathErrorView::Empty)
    } else if !path_is_absolute(t) && root is None {
        Err(SavePathErrorView::MissingProjectRootForRelativePath)
    } else {
        let absolute = if path_is_absolute(t) {
            t
        } else {
            path_join(root->0, t)
        };
        let p = with_default_extension(absolute);
        if is_http_extension(path_extension(p)) {
            Ok(p)
        } else {
            Err(SavePathErrorView::NotHttpFile(p))
        }
    }
}

/// Whether an extension makes a path an `.http` file.
pub fn http_extension(ext: Option<&str>) -> (r: bool)
    ensures
        r == is_http_extension(opt_str_view(ext)),
{
    match ext {
        Some(e) => {
            let ec = chars_of(e);
            let http = chars_of("http");
            eq_ignore_ascii_case(&ec, &http)
        },
        None => false,
    }
}

#[derive(Debug)]
pub struct SaveFilePath(String);

impl View for SaveFilePath {
    type V = Seq<char>;

    closed spec fn view(&self) -> Seq<char> {
        self.0@
    }
}

impl SaveFilePath {
    pub fn parse_user_input(input: &str, default_project_root: Option<&ProjectRoot>) -> (r: Result<Self, SavePathError>)
        ensures
            match r {
                Ok(p) => Ok::<Seq<char>, SavePathErrorView>(p@),
                Err(e) => Err(e@),
            } == save_path_spec(
                input@,
                match default_project_root {
                    Some(root) => Some(root@),
                    None => None,
                },
            ),
    {
        let trimmed = trim_string(input);
        if trimmed.as_str().unicode_len() == 0 {
            return Err(SavePathError::Empty);
        }
        let absolute = if is_absolute(trimmed.as_str()) {
            trimmed
        } else {
            match default_project_root {
                None => {
                    return Err(SavePathError::MissingProjectRootForRelativePath);
                },
                Some(root) => join(root.as_path(), trimmed.as_str()),
            }
        };
        let path = match extension(absolute.as_str()) {
            None => {
                proof {
                    reveal_strlit("http");
                    assert(!"http"@.contains('/'));
                    assert(!"http"@.contains('\\'));
                }
                set_extension(absolute.as_str(), "http")
            },
            Some(_) => absolute,
        };
        let ext = extension(path.as_str());
        let ok = match &ext {
            Some(e) => http_extension(Some(e.as_str())),
            None => http_extension(None),
        };
        if ok {
            Ok(SaveFilePath(path))
        } else {
            Err(SavePathError::NotHttpFile(path))
        }
    }

    pub fn to_path_buf(&self) -> (p: String)
        ensures
            p@ == self@,
    {
        self.0.clone()
    }
}

} // verus!
