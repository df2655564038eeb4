//! The decisions around creating an entry: which version-control action a new entry needs,
//! what an overlay needs afterwards, and how a batch over every entry ends.
use crate::entry::{join_path_spec, overlay_excludes_file_path};
use crate::git::{GitRepoKind, RepoSource};
use crate::name::RepoName;
use vstd::prelude::*;

verus! {

/// How a new standalone entry comes to be.
pub enum NewStandaloneOptions {
    /// Create an empty repository at the path.
    Init,
    /// Clone `source` into the path.
    Clone { source: RepoSource },
    /// Take a repository that is already at the path.
    Register,
}

/// How a new overlay entry comes to be.
pub enum NewOverlayOptions {
    /// Create an empty bare repository.
    Init,
    /// Clone `source` as a bare repository; unless `no_checkout`, populate the home directory
    /// from it.
    Clone { source: RepoSource, no_checkout: bool },
}

/// The version-control action a new entry needs before it may be added.
pub enum BackendAction {
    Init { path: String, kind: GitRepoKind },
    Clone { path: String, source: RepoSource, kind: GitRepoKind },
    /// Check that a repository of `kind` is at `path`.
    VerifyExists { path: String, kind: GitRepoKind },
}

impl NewStandaloneOptions {
    /// Whether the target directory is created before the path is canonicalized.
    pub fn creates_dir(&self) -> (r: bool)
        ensures
            r == !(self is Register),
    {
        match self {
            NewStandaloneOptions::Register => false,
            _ => true,
        }
    }

    /// The action for a standalone entry at the canonical `path`.
    pub fn into_action(self, path: &str) -> (r: BackendAction)
        ensures
            match self {
                NewStandaloneOptions::Init => r matches BackendAction::Init { path: p, kind }
                    && p@ == path@ && kind == GitRepoKind::Normal,
                NewStandaloneOptions::Clone { source } => r matches BackendAction::Clone {
                    path: p,
                    source: s,
                    kind,
                } && p@ == path@ && s@ == source@ && kind == GitRepoKind::Normal,
                NewStandaloneOptions::Register => r matches BackendAction::VerifyExists {
                    path: p,
                    kind,
                } && p@ == path@ && kind == GitRepoKind::Normal,
            },
    {
        match self {
            NewStandaloneOptions::Init => BackendAction::Init {
                path: path.to_owned(),
                kind: GitRepoKind::Normal,
            },
            NewStandaloneOptions::Clone { source } => BackendAction::Clone {
                path: path.to_owned(),
                source,
                kind: GitRepoKind::Normal,
            },
            NewStandaloneOptions::Register => BackendAction::VerifyExists {
                path: path.to_owned(),
                kind: GitRepoKind::Normal,
            },
        }
    }
}

/// A step that follows the creation of an overlay repository. A failed step is reported as a
/// warning; a failed reset skips the restore after it.
pub enum OverlayStep {
    /// Discard the changes a bare clone stages.
    Reset,
    /// Populate the work tree from the index.
    Restore,
    /// Point the repository's excludes file at this path.
    SetExcludesFile(String),
}

impl NewOverlayOptions {
    /// The action for an overlay entry whose bare repository goes at `path`.
    pub fn into_action(self, path: &str) -> (r: BackendAction)
        ensures
            match self {
                NewOverlayOptions::Init => r matches BackendAction::Init { path: p, kind } && p@
                    == path@ && kind == GitRepoKind::Bare,
                NewOverlayOptions::Clone { source, .. } => r matches BackendAction::Clone {
                    path: p,
                    source: s,
                    kind,
                } && p@ == path@ && s@ == source@ && kind == GitRepoKind::Bare,
            },
    {
        match self {
            NewOverlayOptions::Init => BackendAction::Init {
                path: path.to_owned(),
                kind: GitRepoKind::Bare,
            },
            NewOverlayOptions::Clone { source, .. } => BackendAction::Clone {
                path: path.to_owned(),
                source,
                kind: GitRepoKind::Bare,
            },
        }
    }

    /// What follows once the overlay repository named `name` exists: after a clone, a reset
    /// and, unless `no_checkout`, a restore; then, in every case, setting the excludes file to
    /// `<home>/.gitignore.d/<name>`.
    pub fn follow_up(&self, home: &str, name: &RepoName) -> (r: Vec<OverlayStep>)
        ensures
            ({
                let x = join_path_spec(join_path_spec(home@, ".gitignore.d"@), name@);
                match self {
                    NewOverlayOptions::Init => r@.len() == 1 && (r@[0] matches OverlayStep::SetExcludesFile(p)
                        && p@ == x),
                    NewOverlayOptions::Clone { no_checkout, .. } => if *no_checkout {
                        r@.len() == 2 && r@[0] is Reset && (r@[1] matches OverlayStep::SetExcludesFile(p)
                            && p@ == x)
                    } else {
                        r@.len() == 3 && r@[0] is Reset && r@[1] is Restore
                            && (r@[2] matches OverlayStep::SetExcludesFile(p) && p@ == x)
                    },
                }
            }),
    {
        let mut steps: Vec<OverlayStep> = Vec::new();
        match self {
            NewOverlayOptions::Clone { no_checkout, .. } => {
                steps.push(OverlayStep::Reset);
                if !*no_checkout {
                    steps.push(OverlayStep::Restore);
                }
            },
            NewOverlayOptions::Init => {},
        }
        steps.push(OverlayStep::SetExcludesFile(overlay_excludes_file_path(home, name)));
        steps
    }
}

/// How many of `failed[0..k]` are set.
pub open spec fn count_failed(failed: Seq<bool>, k: int) -> nat
    decreases k,
{
    if k <= 0 {
        0
    } else {
        count_failed(failed, k - 1) + if failed[k - 1] {
            1nat
        } else {
            0nat
        }
    }
}

/// A batch over every entry in which some entries failed; the others still ran.
#[derive(Debug)]
pub struct PartialFailure {
    pub failed: usize,
    pub total: usize,
}

/// How a batch ends, given for each entry whether its operation failed.
pub fn batch_outcome(failed: &Vec<bool>) -> (r: Result<(), PartialFailure>)
    ensures
        r is Ok <==> count_failed(failed@, failed@.len() as int) == 0,
        r matches Err(p) ==> p.failed == count_failed(failed@, failed@.len() as int) && p.total
            == failed@.len(),
{
    let mut n: usize = 0;
    let mut i: usize = 0;
    while i < failed.len()
        invariant
            i <= failed@.len(),
            n == count_failed(failed@, i as int),
            n <= i,
        decreases failed@.len() - i,
    {
        if failed[i] {
            n = n + 1;
        }
        i = i + 1;
    }
    if n == 0 {
        Ok(())
    } else {
        Err(PartialFailure { failed: n, total: failed.len() })
    }
}

} // verus!
