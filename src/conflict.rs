//! Detecting when a candidate entry collides with an existing one, by name or by path.
use crate::name::{is_valid_name, RepoName};
use crate::normalization::{NormalizedEqOutcome, Normalization};
use vstd::prelude::*;

verus! {

/// Two characters equal when ASCII case is ignored.
pub open spec fn ascii_ci_char_eq(a: char, b: char) -> bool {
    ||| a == b
    ||| ('A' <= a && a <= 'Z' && (a as u32) + 32 == (b as u32))
    ||| ('A' <= b && b <= 'Z' && (b as u32) + 32 == (a as u32))
}

/// Two sequences of characters equal when ASCII case is ignored.
pub open spec fn ascii_ci_eq(a: Seq<char>, b: Seq<char>) -> bool {
    &&& a.len() == b.len()
    &&& forall|i: int| 0 <= i < a.len() ==> ascii_ci_char_eq(#[trigger] a[i], b[i])
}

/// Relies on `unicase::eq`: two ASCII strings compare with `str::eq_ignore_ascii_case`.
#[verifier::external_body]
fn unicase_eq(a: &str, b: &str) -> (r: bool)
    requires
        vstd::utf8::is_ascii_chars(a@),
        vstd::utf8::is_ascii_chars(b@),
    ensures
        r == ascii_ci_eq(a@, b@),
{
    unicase::eq(a, b)
}

/// Why two names matched after normalization.
#[derive(Clone, Copy, Debug, PartialEq, Eq, Structural)]
pub enum NormalizedRepoNameEq {
    CaseInsensitiveMatch,
}

/// The outcome of comparing the names `t1` and `t2`.
pub open spec fn name_outcome(t1: Seq<char>, t2: Seq<char>) -> NormalizedEqOutcome<
    NormalizedRepoNameEq,
> {
    if t1 == t2 {
        NormalizedEqOutcome::ExactMatch
    } else if ascii_ci_eq(t1, t2) {
        NormalizedEqOutcome::MatchAfterNormalization {
            reason: NormalizedRepoNameEq::CaseInsensitiveMatch,
        }
    } else {
        NormalizedEqOutcome::NotAMatch
    }
}

pub proof fn lemma_valid_name_is_ascii(s: Seq<char>)
    requires
        is_valid_name(s),
    ensures
        vstd::utf8::is_ascii_chars(s),
{
    assert forall|i: int| 0 <= i < s.len() implies (#[trigger] s[i] as u32) < 128 by {
        assert(crate::name::is_name_char(s[i]));
    }
}

impl Normalization<RepoName> for NormalizedRepoNameEq {
    type Facts = ();

    open spec fn outcome(t1: &RepoName, t2: &RepoName, facts: &()) -> NormalizedEqOutcome<Self> {
        name_outcome(t1@, t2@)
    }

    fn normalized_eq(t1: &RepoName, t2: &RepoName, facts: &()) -> (r: NormalizedEqOutcome<Self>) {
        let a = t1.as_str();
        let b = t2.as_str();
        if t1.eq_name(t2) {
            NormalizedEqOutcome::ExactMatch
        } else {
            proof {
                lemma_valid_name_is_ascii(a@);
                lemma_valid_name_is_ascii(b@);
            }
            if unicase_eq(a, b) {
                NormalizedEqOutcome::MatchAfterNormalization {
                    reason: NormalizedRepoNameEq::CaseInsensitiveMatch,
                }
            } else {
                NormalizedEqOutcome::NotAMatch
            }
        }
    }
}

/// Why two paths matched after normalization.
#[derive(Clone, Copy, Debug, PartialEq, Eq, Structural)]
pub enum NormalizedRepoPathEq {
    CanonicalizedPathsEqual,
}

/// What the filesystem said of two paths being compared.
#[derive(Clone, Copy, Debug, PartialEq, Eq, Structural)]
pub struct PathFacts {
    /// Whether the first path exists.
    pub first_exists: bool,
    /// Whether the second path exists.
    pub second_exists: bool,
    /// Whether both paths name the same file; only read when both exist.
    pub same_file: bool,
}

/// Whether two paths name one location: the same file when both exist, the same text when
/// neither does, and never when only one does.
pub open spec fn same_location(t1: Seq<char>, t2: Seq<char>, f: PathFacts) -> bool {
    if f.first_exists && f.second_exists {
        f.same_file
    } else if !f.first_exists && !f.second_exists {
        t1 == t2
    } else {
        false
    }
}

/// The outcome of comparing the paths `t1` and `t2`.
pub open spec fn path_outcome(t1: Seq<char>, t2: Seq<char>, f: PathFacts) -> NormalizedEqOutcome<
    NormalizedRepoPathEq,
> {
    if same_location(t1, t2, f) {
        if t1 == t2 {
            NormalizedEqOutcome::ExactMatch
        } else {
            NormalizedEqOutcome::MatchAfterNormalization {
                reason: NormalizedRepoPathEq::CanonicalizedPathsEqual,
            }
        }
    } else {
        NormalizedEqOutcome::NotAMatch
    }
}

impl Normalization<String> for NormalizedRepoPathEq {
    type Facts = PathFacts;

    open spec fn outcome(t1: &String, t2: &String, facts: &PathFacts) -> NormalizedEqOutcome<Self> {
        path_outcome(t1@, t2@, *facts)
    }

    fn normalized_eq(t1: &String, t2: &String, facts: &PathFacts) -> (r: NormalizedEqOutcome<
        Self,
    >) {
        let same = if facts.first_exists && facts.second_exists {
            facts.same_file
        } else if !facts.first_exists && !facts.second_exists {
            *t1 == *t2
        } else {
            false
        };
        if same {
            if *t1 == *t2 {
                NormalizedEqOutcome::ExactMatch
            } else {
                NormalizedEqOutcome::MatchAfterNormalization {
                    reason: NormalizedRepoPathEq::CanonicalizedPathsEqual,
                }
            }
        } else {
            NormalizedEqOutcome::NotAMatch
        }
    }
}

/// One field of an existing entry, and how the candidate's field compared with it.
pub struct RepoFieldEq<T, R> {
    pub found: T,
    pub outcome: NormalizedEqOutcome<R>,
}

/// An existing entry that collides with a candidate, with the outcome for each field.
pub struct RepoConflictCheck {
    pub found_name: RepoName,
    pub name_eq: RepoFieldEq<RepoName, NormalizedRepoNameEq>,
    pub entry_match: RepoFieldEq<String, NormalizedRepoPathEq>,
}

/// The abstract value of a conflict: the existing name, the name outcome, the existing
/// entry's path and the path outcome.
pub struct ConflictView {
    pub found_name: Seq<char>,
    pub name: NormalizedEqOutcome<NormalizedRepoNameEq>,
    pub found_path: Seq<char>,
    pub path: NormalizedEqOutcome<NormalizedRepoPathEq>,
}

impl View for RepoConflictCheck {
    type V = ConflictView;

    open spec fn view(&self) -> ConflictView {
        ConflictView {
            found_name: self.found_name@,
            name: self.name_eq.outcome,
            found_path: self.entry_match.found@,
            path: self.entry_match.outcome,
        }
    }
}

/// How a conflict is worded to the user, by which fields matched.
#[derive(Clone, Copy, Debug, PartialEq, Eq, Structural)]
pub enum ConflictKind {
    /// Both the name and the path matched: the same repository was added again.
    AlreadyAdded,
    /// Only the name matched: the name is used by a different repository.
    NameTaken,
    /// Only the path matched: the location is tracked under another name.
    PathTaken,
}

pub open spec fn conflict_kind_spec(v: ConflictView) -> ConflictKind {
    if !(v.name is NotAMatch) && !(v.path is NotAMatch) {
        ConflictKind::AlreadyAdded
    } else if !(v.name is NotAMatch) {
        ConflictKind::NameTaken
    } else {
        ConflictKind::PathTaken
    }
}

impl RepoConflictCheck {
    /// Which diagnostic this conflict calls for.
    pub fn conflict_kind(&self) -> (r: ConflictKind)
        ensures
            r == conflict_kind_spec(self@),
    {
        let n = self.name_eq.outcome.matched();
        let p = self.entry_match.outcome.matched();
        if n && p {
            ConflictKind::AlreadyAdded
        } else if n {
            ConflictKind::NameTaken
        } else {
            ConflictKind::PathTaken
        }
    }
}

/// Receives the conflicts found for a candidate entry.
pub trait RepoConflictHandler {
    fn on_conflict_path(&mut self, matched: &RepoName, reason: Option<(&str, NormalizedRepoPathEq)>);

    fn on_conflict_name(&mut self, matched: &RepoName, reason: Option<NormalizedRepoNameEq>);
}

} // verus!
