//! The version-control backend: the command lines it runs, how their results are read, and
//! the environment that binds a repository handle to its directories.
use crate::cli::CliRepoKind;
use crate::entry::{join_path, join_path_spec};
use crate::text::{occurs_at, text_contains, text_eq};
use vstd::prelude::*;

verus! {

/// A repository as the version-control tool sees it.
#[derive(Clone, Copy, Debug, PartialEq, Eq, Structural)]
pub enum GitRepoKind {
    Normal,
    Bare,
}

pub open spec fn git_kind_of(kind: CliRepoKind) -> GitRepoKind {
    match kind {
        CliRepoKind::Overlay => GitRepoKind::Bare,
        CliRepoKind::Standalone => GitRepoKind::Normal,
    }
}

impl GitRepoKind {
    /// Overlay entries are bare repositories; standalone entries are normal ones.
    pub fn from_cli(kind: CliRepoKind) -> (r: GitRepoKind)
        ensures
            r == git_kind_of(kind),
    {
        match kind {
            CliRepoKind::Overlay => GitRepoKind::Bare,
            CliRepoKind::Standalone => GitRepoKind::Normal,
        }
    }
}

impl From<CliRepoKind> for GitRepoKind {
    fn from(kind: CliRepoKind) -> (r: GitRepoKind) {
        GitRepoKind::from_cli(kind)
    }
}

impl vstd::std_specs::convert::FromSpecImpl<CliRepoKind> for GitRepoKind {
    open spec fn obeys_from_spec() -> bool {
        true
    }

    open spec fn from_spec(kind: CliRepoKind) -> GitRepoKind {
        git_kind_of(kind)
    }
}

/// How a finished command ended when it did not succeed.
#[derive(Clone, Copy, Debug, PartialEq, Eq, Structural)]
pub enum CommandFailure {
    /// It exited with this non-zero status.
    ExitCode(i32),
    /// It was terminated by a signal.
    Signal,
}

/// The failure of a command that ended with exit status `code` (`None`: killed by a signal),
/// or `None` when it succeeded.
pub fn cmd_failure_err(code: Option<i32>) -> (r: Option<CommandFailure>)
    ensures
        r == match code {
            Some(0) => None,
            Some(c) => Some(CommandFailure::ExitCode(c)),
            None => Some(CommandFailure::Signal),
        },
{
    match code {
        Some(0) => None,
        Some(c) => Some(CommandFailure::ExitCode(c)),
        None => Some(CommandFailure::Signal),
    }
}

/// `Ok` when the command ended with exit status 0, else its failure.
pub fn cmd_failure_res(code: Option<i32>) -> (r: Result<(), CommandFailure>)
    ensures
        r is Ok <==> code == Some(0i32),
        r matches Err(f) ==> Some(f) == match code {
            Some(0) => None,
            Some(c) => Some(CommandFailure::ExitCode(c)),
            None => Some(CommandFailure::Signal),
        },
{
    match cmd_failure_err(code) {
        None => Ok(()),
        Some(f) => Err(f),
    }
}

/// The distinct non-zero status reported for a command that a signal ended.
pub const SIGNAL_EXIT_CODE: i32 = 201;

/// The exit status reported for a command that ended with `code`: the status itself, or
/// `SIGNAL_EXIT_CODE` when a signal ended it.
pub fn exit_code_of(code: Option<i32>) -> (r: i32)
    ensures
        r == match code {
            Some(c) => c,
            None => SIGNAL_EXIT_CODE,
        },
{
    match code {
        Some(c) => c,
        None => SIGNAL_EXIT_CODE,
    }
}

/// What went wrong while running the tool.
#[derive(Clone, Copy, Debug, PartialEq, Eq, Structural)]
pub enum GitFailure {
    /// The command could not be started.
    Spawn,
    /// The command printed text that is not valid UTF-8.
    Encoding,
    /// The command ended without success.
    Tool(CommandFailure),
    /// The command's output was not what it should print.
    UnexpectedOutput,
}

/// The existence probe itself failed.
#[derive(Debug)]
pub struct GitExistError {
    pub op: GitFailure,
    pub path: String,
}

/// The probe ran, but found no repository of the expected kind; `actual` is what it found.
#[derive(Clone, Copy, Debug, PartialEq, Eq, Structural)]
pub struct GitExistCheckFailure {
    pub expected: GitRepoKind,
    pub actual: Option<GitRepoKind>,
}

/// Creating a repository failed.
#[derive(Debug)]
pub struct GitInitError {
    pub op: GitFailure,
    pub path: String,
}

/// Cloning a repository failed.
#[derive(Debug)]
pub struct GitCloneError {
    pub op: GitFailure,
    pub path: String,
}

/// Setting the excludes file failed.
#[derive(Debug)]
pub struct GitSetExcludeFileError {
    pub op: GitFailure,
}

/// Setting the attributes file failed.
#[derive(Debug)]
pub struct GitSetAttributesFileError {
    pub op: GitFailure,
}

/// Opening a repository failed: the probe failed, or found no repository of the kind asked.
#[derive(Debug)]
pub struct OpenRepoError {
    pub path: String,
    pub probe: Result<GitExistCheckFailure, GitExistError>,
}

/// Listing the tracked files failed.
#[derive(Debug)]
pub struct GitListFilesError {
    pub op: GitFailure,
}

/// Discarding staged changes failed.
#[derive(Debug)]
pub struct GitResetError {
    pub op: GitFailure,
}

/// Repopulating the work tree failed.
#[derive(Debug)]
pub struct GitRestoreError {
    pub op: GitFailure,
}

/// Where a repository is cloned from: a path or a URL.
pub struct RepoSource {
    inner: String,
}

impl View for RepoSource {
    type V = Seq<char>;

    closed spec fn view(&self) -> Seq<char> {
        self.inner@
    }
}

impl RepoSource {
    pub fn new(s: String) -> (r: RepoSource)
        ensures
            r@ == s@,
    {
        RepoSource { inner: s }
    }

    pub fn as_str(&self) -> (r: &str)
        ensures
            r@ == self@,
    {
        self.inner.as_str()
    }
}

impl core::str::FromStr for RepoSource {
    type Err = core::convert::Infallible;

    fn from_str(s: &str) -> Result<RepoSource, core::convert::Infallible> {
        Ok(RepoSource::new(s.to_owned()))
    }
}

/// How to open a repository: bare, with an explicit work tree, or normal.
pub enum OpenRepoOptions<'a> {
    Bare { repo_path: &'a str, work_tree_path: &'a str },
    Normal { work_tree_path: &'a str },
}

/// The message the tool prints when a directory holds no repository.
pub const NOT_A_REPO_MESSAGE: &'static str = "not a git repository";

/// The exit status the tool ends with when a directory holds no repository.
pub const NOT_A_REPO_STATUS: i32 = 128;

/// The text with surrounding whitespace removed.
pub uninterp spec fn trimmed(s: Seq<char>) -> Seq<char>;

/// Relies on `str::trim`: the text without leading and trailing whitespace, which depends
/// on the text alone.
#[verifier::external_body]
pub(crate) fn trim_text(s: &str) -> (r: &str)
    ensures
        r@ == trimmed(s@),
{
    s.trim()
}

/// The repository kind that the probe's answer, once trimmed, reports: `true` for a bare
/// repository, `false` for a normal one.
pub open spec fn bare_flag_spec(t: Seq<char>) -> Option<GitRepoKind> {
    if t == "true"@ {
        Some(GitRepoKind::Bare)
    } else if t == "false"@ {
        Some(GitRepoKind::Normal)
    } else {
        None
    }
}

/// Reads the probe's trimmed answer.
pub fn parse_bare_flag(t: &str) -> (r: Option<GitRepoKind>)
    ensures
        r == bare_flag_spec(t@),
{
    proof {
        reveal_strlit("true");
        reveal_strlit("false");
    }
    if text_eq(t, "true") {
        Some(GitRepoKind::Bare)
    } else if text_eq(t, "false") {
        Some(GitRepoKind::Normal)
    } else {
        None
    }
}

/// Whether the probe's result says that nothing is there.
pub open spec fn reports_no_repo(code: Option<i32>, stderr: Seq<char>) -> bool {
    code == Some(NOT_A_REPO_STATUS) && exists|i: int| occurs_at(stderr, NOT_A_REPO_MESSAGE@, i)
}

/// What the probe found, from its exit status, its standard error and its standard output
/// (each `None` when not valid UTF-8).
pub open spec fn probe_found(
    code: Option<i32>,
    stdout: Option<Seq<char>>,
    stderr: Option<Seq<char>>,
) -> Result<Option<GitRepoKind>, GitFailure> {
    match stderr {
        None => Err(GitFailure::Encoding),
        Some(err) => if reports_no_repo(code, err) {
            Ok(None)
        } else if code != Some(0i32) {
            Err(
                GitFailure::Tool(
                    match code {
                        Some(c) => CommandFailure::ExitCode(c),
                        None => CommandFailure::Signal,
                    },
                ),
            )
        } else {
            match stdout {
                None => Err(GitFailure::Encoding),
                Some(out) => match bare_flag_spec(trimmed(out)) {
                    Some(k) => Ok(Some(k)),
                    None => Err(GitFailure::UnexpectedOutput),
                },
            }
        },
    }
}

pub open spec fn opt_view(s: Option<String>) -> Option<Seq<char>> {
    match s {
        Some(x) => Some(x@),
        None => None,
    }
}

/// The version-control tool, driven through its command line.
pub struct GitCli;

impl GitCli {
    /// Arguments of the probe that asks whether `path` holds a bare repository.
    pub fn exists_args(path: &str) -> (r: Vec<String>)
        ensures
            r@.len() == 4,
            r@[0]@ == "-C"@,
            r@[1]@ == path@,
            r@[2]@ == "rev-parse"@,
            r@[3]@ == "--is-bare-repository"@,
    {
        let mut v: Vec<String> = Vec::new();
        v.push(String::from_str("-C"));
        v.push(path.to_owned());
        v.push(String::from_str("rev-parse"));
        v.push(String::from_str("--is-bare-repository"));
        v
    }

    /// Reads the probe's result for `path`, where a repository of kind `expected` is wanted.
    /// A failed probe is an error; a probe that found nothing, or a repository of the other
    /// kind, is a check failure naming what it found.
    pub fn interpret_exists(
        path: &str,
        expected: GitRepoKind,
        code: Option<i32>,
        stdout: Option<String>,
        stderr: Option<String>,
    ) -> (r: Result<Result<(), GitExistCheckFailure>, GitExistError>)
        ensures
            match probe_found(code, opt_view(stdout), opt_view(stderr)) {
                Err(f) => r matches Err(e) && e.op == f && e.path@ == path@,
                Ok(found) => if found == Some(expected) {
                    r == Ok::<Result<(), GitExistCheckFailure>, GitExistError>(Ok(()))
                } else {
                    r == Ok::<Result<(), GitExistCheckFailure>, GitExistError>(
                        Err(GitExistCheckFailure { expected, actual: found }),
                    )
                },
            },
    {
        let err = match stderr {
            None => {
                return Err(GitExistError { op: GitFailure::Encoding, path: path.to_owned() });
            },
            Some(e) => e,
        };
        let actual = if code == Some(NOT_A_REPO_STATUS) && text_contains(
            err.as_str(),
            NOT_A_REPO_MESSAGE,
        ) {
            None
        } else {
            match cmd_failure_err(code) {
                Some(f) => {
                    return Err(GitExistError { op: GitFailure::Tool(f), path: path.to_owned() });
                },
                None => {},
            }
            let out = match stdout {
                None => {
                    return Err(GitExistError { op: GitFailure::Encoding, path: path.to_owned() });
                },
                Some(o) => o,
            };
            match parse_bare_flag(trim_text(out.as_str())) {
                Some(k) => Some(k),
                None => {
                    return Err(
                        GitExistError { op: GitFailure::UnexpectedOutput, path: path.to_owned() },
                    );
                },
            }
        };
        if actual == Some(expected) {
            Ok(Ok(()))
        } else {
            Ok(Err(GitExistCheckFailure { expected, actual }))
        }
    }

    /// Arguments that create a repository of `kind` at `path`.
    pub fn init_args(path: &str, kind: GitRepoKind) -> (r: Vec<String>)
        ensures
            r@.len() == if kind == GitRepoKind::Bare {
                3int
            } else {
                2int
            },
            r@[0]@ == "init"@,
            r@[1]@ == path@,
            kind == GitRepoKind::Bare ==> r@[2]@ == "--bare"@,
    {
        let mut v: Vec<String> = Vec::new();
        v.push(String::from_str("init"));
        v.push(path.to_owned());
        if kind == GitRepoKind::Bare {
            v.push(String::from_str("--bare"));
        }
        v
    }

    /// Arguments that clone `source` into a repository of `kind` at `path`.
    pub fn clone_args(path: &str, source: &RepoSource, kind: GitRepoKind) -> (r: Vec<String>)
        ensures
            r@.len() == if kind == GitRepoKind::Bare {
                4int
            } else {
                3int
            },
            r@[0]@ == "clone"@,
            r@[1]@ == source@,
            r@[2]@ == path@,
            kind == GitRepoKind::Bare ==> r@[3]@ == "--bare"@,
    {
        let mut v: Vec<String> = Vec::new();
        v.push(String::from_str("clone"));
        v.push(source.as_str().to_owned());
        v.push(path.to_owned());
        if kind == GitRepoKind::Bare {
            v.push(String::from_str("--bare"));
        }
        v
    }

    /// The path to probe, and the kind it must hold, before a repository can be opened.
    pub fn open_probe<'a>(options: &OpenRepoOptions<'a>) -> (r: (&'a str, GitRepoKind))
        ensures
            match options {
                OpenRepoOptions::Bare { repo_path, .. } => r.0@ == repo_path@ && r.1
                    == GitRepoKind::Bare,
                OpenRepoOptions::Normal { work_tree_path } => r.0@ == work_tree_path@ && r.1
                    == GitRepoKind::Normal,
            },
    {
        match options {
            OpenRepoOptions::Bare { repo_path, .. } => (*repo_path, GitRepoKind::Bare),
            OpenRepoOptions::Normal { work_tree_path } => (*work_tree_path, GitRepoKind::Normal),
        }
    }

    /// Opens a repository once the probe of `open_probe` has run: a handle bound to the
    /// repository and work tree directories when the probe found the expected kind.
    pub fn open_repo(
        options: OpenRepoOptions,
        probe: Result<Result<(), GitExistCheckFailure>, GitExistError>,
    ) -> (r: Result<GitCliRepo, OpenRepoError>)
        ensures
            r is Ok <==> (probe matches Ok(Ok(()))),
            r matches Ok(h) ==> match options {
                OpenRepoOptions::Bare { repo_path, work_tree_path } => h.repo_path@ == repo_path@
                    && h.work_tree_path@ == work_tree_path@,
                OpenRepoOptions::Normal { work_tree_path } => h.repo_path@ == join_path_spec(
                    work_tree_path@,
                    ".git"@,
                ) && h.work_tree_path@ == work_tree_path@,
            },
            r matches Err(e) ==> match options {
                OpenRepoOptions::Bare { repo_path, .. } => e.path@ == repo_path@,
                OpenRepoOptions::Normal { work_tree_path } => e.path@ == work_tree_path@,
            },
    {
        let (path, _) = Self::open_probe(&options);
        match probe {
            Ok(Ok(())) => match options {
                OpenRepoOptions::Bare { repo_path, work_tree_path } => Ok(
                    GitCliRepo {
                        repo_path: repo_path.to_owned(),
                        work_tree_path: work_tree_path.to_owned(),
                    },
                ),
                OpenRepoOptions::Normal { work_tree_path } => Ok(
                    GitCliRepo {
                        repo_path: join_path(work_tree_path, ".git"),
                        work_tree_path: work_tree_path.to_owned(),
                    },
                ),
            },
            Ok(Err(f)) => Err(OpenRepoError { path: path.to_owned(), probe: Ok(f) }),
            Err(e) => Err(OpenRepoError { path: path.to_owned(), probe: Err(e) }),
        }
    }
}

/// The backends the registry can drive.
pub enum DynGit {
    Cli(GitCli),
}

/// The configuration key of the excludes file.
pub const EXCLUDES_FILE_CONFIG_PATH: &'static str = "core.excludesFile";

/// The configuration key of the attributes file.
pub const ATTRIBUTES_FILE_CONFIG_PATH: &'static str = "core.attributesFile";

/// A handle on one repository: every command run through it is bound to its repository
/// directory and work tree.
pub struct GitCliRepo {
    pub work_tree_path: String,
    pub repo_path: String,
}

impl GitCliRepo {
    /// The environment a command run through this handle gets: the work tree and the
    /// repository directory, for that command alone.
    pub fn env_bindings(&self) -> (r: Vec<(String, String)>)
        ensures
            r@.len() == 2,
            r@[0].0@ == "GIT_WORK_TREE"@,
            r@[0].1@ == self.work_tree_path@,
            r@[1].0@ == "GIT_DIR"@,
            r@[1].1@ == self.repo_path@,
    {
        let mut v: Vec<(String, String)> = Vec::new();
        v.push((String::from_str("GIT_WORK_TREE"), self.work_tree_path.clone()));
        v.push((String::from_str("GIT_DIR"), self.repo_path.clone()));
        v
    }

    /// Arguments that set configuration `key` to `value`, or clear it when `value` is `None`.
    pub fn config_args(key: &str, value: Option<&str>) -> (r: Vec<String>)
        ensures
            r@.len() == 3,
            r@[0]@ == "config"@,
            r@[1]@ == key@,
            match value {
                Some(v) => r@[2]@ == v@,
                None => r@[2]@ == "--unset-all"@,
            },
    {
        let mut v: Vec<String> = Vec::new();
        v.push(String::from_str("config"));
        v.push(key.to_owned());
        match value {
            Some(x) => v.push(x.to_owned()),
            None => v.push(String::from_str("--unset-all")),
        }
        v
    }

    /// Arguments that set, or clear, the excludes file.
    pub fn set_excludes_file_args(path: Option<&str>) -> (r: Vec<String>)
        ensures
            r@.len() == 3,
            r@[0]@ == "config"@,
            r@[1]@ == EXCLUDES_FILE_CONFIG_PATH@,
            match path {
                Some(v) => r@[2]@ == v@,
                None => r@[2]@ == "--unset-all"@,
            },
    {
        Self::config_args(EXCLUDES_FILE_CONFIG_PATH, path)
    }

    /// Arguments that set, or clear, the attributes file.
    pub fn set_attributes_file_args(path: Option<&str>) -> (r: Vec<String>)
        ensures
            r@.len() == 3,
            r@[0]@ == "config"@,
            r@[1]@ == ATTRIBUTES_FILE_CONFIG_PATH@,
            match path {
                Some(v) => r@[2]@ == v@,
                None => r@[2]@ == "--unset-all"@,
            },
    {
        Self::config_args(ATTRIBUTES_FILE_CONFIG_PATH, path)
    }
}

} // verus!
