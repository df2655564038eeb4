//! Values the command line hands to the library, and how they are parsed from text.
use crate::entry::{kind_of, RepoEntry};
use crate::name::{validation_outcome, InvalidRepoNameError, RepoName};
use crate::paths::{
    clean_path, cleaned_path, file_name, file_name_of, is_absolute, is_absolute_spec,
};
use crate::text::{find_char, is_first_index, text_eq};
use crate::entry::{join_path, join_path_spec};
use vstd::prelude::*;

verus! {

/// The kind of a registry entry, as the command line names it.
#[derive(Clone, Copy, Debug, PartialEq, Eq, Structural)]
pub enum CliRepoKind {
    Standalone,
    Overlay,
}

/// Text that names no repository kind.
#[derive(Debug)]
pub struct InvalidRepoKindError {
    pub what: String,
}

pub open spec fn repo_kind_from_text(s: Seq<char>) -> Option<CliRepoKind> {
    if s == "standalone"@ {
        Some(CliRepoKind::Standalone)
    } else if s == "overlay"@ {
        Some(CliRepoKind::Overlay)
    } else {
        None
    }
}

impl CliRepoKind {
    /// Every kind, in the order listings group them.
    pub fn all() -> (r: Vec<CliRepoKind>)
        ensures
            r@ == seq![CliRepoKind::Standalone, CliRepoKind::Overlay],
    {
        vec![CliRepoKind::Standalone, CliRepoKind::Overlay]
    }

    /// Parses `standalone` or `overlay`.
    pub fn parse(s: &str) -> (r: Result<CliRepoKind, InvalidRepoKindError>)
        ensures
            r matches Ok(k) ==> repo_kind_from_text(s@) == Some(k),
            r matches Err(e) ==> repo_kind_from_text(s@) is None && e.what@ == s@,
            r is Ok <==> repo_kind_from_text(s@) is Some,
    {
        proof {
            reveal_strlit("standalone");
            reveal_strlit("overlay");
        }
        if text_eq(s, "standalone") {
            Ok(CliRepoKind::Standalone)
        } else if text_eq(s, "overlay") {
            Ok(CliRepoKind::Overlay)
        } else {
            Err(InvalidRepoKindError { what: s.to_owned() })
        }
    }
}

impl core::str::FromStr for CliRepoKind {
    type Err = InvalidRepoKindError;

    fn from_str(s: &str) -> Result<CliRepoKind, InvalidRepoKindError> {
        CliRepoKind::parse(s)
    }
}

/// Which entries a listing shows.
#[derive(Clone, Copy, Debug, PartialEq, Eq, Structural)]
pub enum RepoSpec {
    All,
    Kind(CliRepoKind),
}

/// Why text is not a repository spec.
#[derive(Debug)]
pub enum InvalidRepoSpecError {
    /// Neither `all` nor of the form `<type>:<value>`.
    Unrecognized { what: String },
    /// `<type>` in `<type>:<value>` is not a known spec type.
    UnrecognizedType { what: String },
    /// The value of `kind:<value>` is not a repository kind.
    ParseRepoKind { source: InvalidRepoKindError },
}

impl RepoSpec {
    pub fn default() -> (r: RepoSpec)
        ensures
            r == RepoSpec::All,
    {
        RepoSpec::All
    }

    /// Parses `all` or `kind:<kind>`.
    pub fn parse(s: &str) -> (r: Result<RepoSpec, InvalidRepoSpecError>)
        ensures
            s@ == "all"@ ==> r == Ok::<RepoSpec, InvalidRepoSpecError>(RepoSpec::All),
            s@ != "all"@ && !s@.contains(':') ==> (r matches Err(
                InvalidRepoSpecError::Unrecognized { what },
            ) && what@ == s@),
            forall|k: int|
                #![trigger is_first_index(s@, ':', k)]
                s@ != "all"@ && is_first_index(s@, ':', k) ==> {
                    let t = s@.take(k);
                    let v = s@.skip(k + 1);
                    if t == "kind"@ {
                        match repo_kind_from_text(v) {
                            Some(kind) => r == Ok::<RepoSpec, InvalidRepoSpecError>(
                                RepoSpec::Kind(kind),
                            ),
                            None => r matches Err(
                                InvalidRepoSpecError::ParseRepoKind { source },
                            ) && source.what@ == v,
                        }
                    } else {
                        r matches Err(InvalidRepoSpecError::UnrecognizedType { what })
                            && what@ == t
                    }
                },
    {
        proof {
            reveal_strlit("all");
            reveal_strlit("kind");
        }
        if text_eq(s, "all") {
            return Ok(RepoSpec::All);
        }
        match find_char(s, ':') {
            None => Err(InvalidRepoSpecError::Unrecognized { what: s.to_owned() }),
            Some(k) => {
                let len = s.unicode_len();
                let t = s.substring_char(0, k);
                let v = s.substring_char(k + 1, len);
                proof {
                    assert(t@ == s@.take(k as int));
                    assert(v@ =~= s@.skip(k + 1));
                    assert forall|k2: int| is_first_index(s@, ':', k2) implies k2 == k by {
                        if k2 < k {
                            assert(s@[k2] != ':');
                        } else if k2 > k {
                            assert(s@[k as int] != ':');
                        }
                    }
                }
                if text_eq(t, "kind") {
                    match CliRepoKind::parse(v) {
                        Ok(kind) => Ok(RepoSpec::Kind(kind)),
                        Err(source) => Err(InvalidRepoSpecError::ParseRepoKind { source }),
                    }
                } else {
                    Err(InvalidRepoSpecError::UnrecognizedType { what: t.to_owned() })
                }
            },
        }
    }

    /// Whether the entry named `_name` is selected.
    pub fn matches(&self, _name: &RepoName, repo: &RepoEntry) -> (r: bool)
        ensures
            r == match self {
                RepoSpec::All => true,
                RepoSpec::Kind(kind) => kind_of(repo@) == *kind,
            },
    {
        match self {
            RepoSpec::All => true,
            RepoSpec::Kind(kind) => repo.kind() == *kind,
        }
    }
}

impl core::str::FromStr for RepoSpec {
    type Err = InvalidRepoSpecError;

    fn from_str(s: &str) -> Result<RepoSpec, InvalidRepoSpecError> {
        RepoSpec::parse(s)
    }
}

/// Whether an entry is selected by every one of `specs`.
pub open spec fn selected_by_all(specs: Seq<RepoSpec>, kind: CliRepoKind) -> bool {
    forall|i: int|
        0 <= i < specs.len() ==> match #[trigger] specs[i] {
            RepoSpec::All => true,
            RepoSpec::Kind(k) => k == kind,
        }
}

/// How a listing is laid out.
#[derive(Clone, Copy, Debug, PartialEq, Eq, Structural)]
pub enum ListFormat {
    Flat,
    GroupByKind,
}

/// Text that names no listing format.
#[derive(Debug)]
pub struct InvalidListFormatError {
    pub actual: String,
}

impl ListFormat {
    pub fn default() -> (r: ListFormat)
        ensures
            r == ListFormat::Flat,
    {
        ListFormat::Flat
    }

    /// Parses `flat` or `group-by-kind`.
    pub fn parse(s: &str) -> (r: Result<ListFormat, InvalidListFormatError>)
        ensures
            s@ == "flat"@ ==> r == Ok::<ListFormat, InvalidListFormatError>(ListFormat::Flat),
            s@ == "group-by-kind"@ ==> r == Ok::<ListFormat, InvalidListFormatError>(
                ListFormat::GroupByKind,
            ),
            s@ != "flat"@ && s@ != "group-by-kind"@ ==> (r matches Err(e) && e.actual@ == s@),
    {
        proof {
            reveal_strlit("flat");
            reveal_strlit("group-by-kind");
            assert("flat"@.len() != "group-by-kind"@.len());
        }
        if text_eq(s, "flat") {
            Ok(ListFormat::Flat)
        } else if text_eq(s, "group-by-kind") {
            Ok(ListFormat::GroupByKind)
        } else {
            Err(InvalidListFormatError { actual: s.to_owned() })
        }
    }
}

impl core::str::FromStr for ListFormat {
    type Err = InvalidListFormatError;

    fn from_str(s: &str) -> Result<ListFormat, InvalidListFormatError> {
        ListFormat::parse(s)
    }
}

/// Why no repository name could be taken from a path.
#[derive(Debug)]
pub enum BaseNameError {
    /// The path has no final normal component.
    NoBaseName,
    /// The final component is not a valid repository name.
    InvalidName(InvalidRepoNameError),
}

/// The path a base name is taken from: `path` itself when absolute, else `path` under `cwd`,
/// cleaned.
pub open spec fn base_name_source(path: Seq<char>, cwd: Seq<char>) -> Seq<char> {
    if is_absolute_spec(path) {
        path
    } else {
        cleaned_path(join_path_spec(cwd, path))
    }
}

/// A name given on the command line for a new repository, if any.
pub struct CliNewRepoName {
    pub name: Option<RepoName>,
}

impl CliNewRepoName {
    pub fn into_opt(self) -> (r: Option<RepoName>)
        ensures
            r == self.name,
    {
        self.name
    }

    /// The name given, or else the base name of `path`, where a relative `path` is taken
    /// under the working directory `cwd`.
    pub fn unwrap_or_base_name(self, path: &str, cwd: &str) -> (r: Result<RepoName, BaseNameError>)
        ensures
            self.name matches Some(n) ==> r matches Ok(m) && m@ == n@,
            self.name is None ==> base_name_outcome(
                file_name_of(base_name_source(path@, cwd@)),
                r,
            ),
    {
        match self.name {
            Some(n) => Ok(n),
            None => {
                let source = if is_absolute(path) {
                    path.to_owned()
                } else {
                    let joined = join_path(cwd, path);
                    clean_path(joined.as_str())
                };
                let f = file_name(source.as_str());
                name_from_file_name(f)
            },
        }
    }
}

/// What `name_from_file_name` returns for the final component `f` of a path.
pub open spec fn base_name_outcome(f: Option<Seq<char>>, r: Result<RepoName, BaseNameError>) -> bool {
    match f {
        None => r matches Err(BaseNameError::NoBaseName),
        Some(s) => match r {
            Ok(n) => n@ == s,
            Err(BaseNameError::InvalidName(e)) => validation_outcome(s, Err(e)),
            Err(BaseNameError::NoBaseName) => false,
        },
    }
}

/// Takes the final component of a path as a repository name.
pub fn name_from_file_name(f: Option<String>) -> (r: Result<RepoName, BaseNameError>)
    ensures
        base_name_outcome(
            match f {
                Some(s) => Some(s@),
                None => None,
            },
            r,
        ),
        f matches Some(s) ==> (r is Ok <==> crate::name::is_valid_name(s@)),
{
    match f {
        None => Err(BaseNameError::NoBaseName),
        Some(s) => match RepoName::new(s) {
            Ok(n) => Ok(n),
            Err(e) => Err(BaseNameError::InvalidName(e)),
        },
    }
}

/// A command to run and its arguments.
pub struct CommandAndArgs {
    pub cmd_and_args: Vec<String>,
}

/// Why a command line holds no command.
#[derive(Clone, Copy, Debug, PartialEq, Eq, Structural)]
pub enum CommandError {
    CommandNotSpecified,
}

impl CommandAndArgs {
    /// The program and the arguments that follow it.
    pub fn split_command(&self) -> (r: Result<(&String, &[String]), CommandError>)
        ensures
            self.cmd_and_args@.len() == 0 <==> r is Err,
            r matches Ok((c, rest)) ==> c@ == self.cmd_and_args@[0]@ && rest@
                == self.cmd_and_args@.skip(1),
    {
        if self.cmd_and_args.len() == 0 {
            Err(CommandError::CommandNotSpecified)
        } else {
            let rest = vstd::slice::slice_subrange(self.cmd_and_args.as_slice(), 1, self.cmd_and_args.len());
            Ok((&self.cmd_and_args[0], rest))
        }
    }
}

} // verus!
