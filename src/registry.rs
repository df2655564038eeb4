//! The registry: an ordered mapping from repository name to entry, with a flag that says
//! whether it changed since it was last persisted.
use crate::conflict::{
    name_outcome, path_outcome, ConflictView, NormalizedRepoNameEq, NormalizedRepoPathEq,
    PathFacts, RepoConflictCheck, RepoFieldEq,
};
use crate::cli::{selected_by_all, CliRepoKind, RepoSpec};
use crate::entry::{entry_path, kind_of, EntryView, RepoEntry};
use crate::name::{lemma_seq_lt_irreflexive, lemma_seq_lt_total, lemma_seq_lt_transitive, seq_lt, RepoName};
use crate::normalization::{NormalizedEqOutcome, Normalization};
use crate::persist::{
    doc_entries, overlay_entries_upto, scan_view, skipped_upto, standalone_part, standalone_upto,
    standalone_view, warning_for, LoadError, LoadWarning, OverlayDirEntry, OverlayDirView,
    StandaloneRepoDb, StandaloneRepoEntry,
};
use vstd::prelude::*;

verus! {

/// The abstract value of a registry: its entries in name order, and whether it changed since
/// it was last persisted.
pub struct RegistryView {
    pub entries: Seq<(Seq<char>, EntryView)>,
    pub dirty: bool,
}

/// Entries strictly ordered by name, so no name occurs twice.
pub open spec fn sorted_unique(s: Seq<(Seq<char>, EntryView)>) -> bool {
    forall|i: int, j: int| 0 <= i < j < s.len() ==> seq_lt(#[trigger] s[i].0, #[trigger] s[j].0)
}

/// Whether an entry of `s` is named `n`.
pub open spec fn has_name(s: Seq<(Seq<char>, EntryView)>, n: Seq<char>) -> bool {
    exists|i: int| 0 <= i < s.len() && #[trigger] s[i].0 == n
}

/// Whether two entries of `s` share a name.
pub open spec fn has_duplicate_names(s: Seq<(Seq<char>, EntryView)>) -> bool {
    exists|i: int, j: int| 0 <= i < j < s.len() && #[trigger] s[i].0 == #[trigger] s[j].0
}

impl RegistryView {
    pub open spec fn wf(self) -> bool {
        sorted_unique(self.entries)
    }
}

/// The conflict check of a candidate named `cand_name` at `cand_path` against entry `i` of `s`.
pub open spec fn conflict_at(
    cand_name: Seq<char>,
    cand_path: Seq<char>,
    overlay_root: Seq<char>,
    s: Seq<(Seq<char>, EntryView)>,
    facts: Seq<PathFacts>,
    i: int,
) -> ConflictView {
    let n = s[i].0;
    let e = s[i].1;
    let p = entry_path(e, overlay_root, n);
    ConflictView {
        found_name: n,
        name: name_outcome(cand_name, n),
        found_path: p,
        path: if !facts[i].second_exists && !(e is Overlay) {
            NormalizedEqOutcome::NotAMatch
        } else {
            path_outcome(cand_path, p, facts[i])
        },
    }
}

pub open spec fn is_conflict(c: ConflictView) -> bool {
    !(c.name is NotAMatch) || !(c.path is NotAMatch)
}

/// The conflicts among the first `k` entries, in order.
pub open spec fn conflicts_upto(
    cand_name: Seq<char>,
    cand_path: Seq<char>,
    overlay_root: Seq<char>,
    s: Seq<(Seq<char>, EntryView)>,
    facts: Seq<PathFacts>,
    k: int,
) -> Seq<ConflictView>
    decreases k,
{
    if k <= 0 {
        Seq::empty()
    } else {
        let prev = conflicts_upto(cand_name, cand_path, overlay_root, s, facts, k - 1);
        let c = conflict_at(cand_name, cand_path, overlay_root, s, facts, k - 1);
        if is_conflict(c) {
            prev.push(c)
        } else {
            prev
        }
    }
}

/// Every entry of `s` that collides with the candidate, in order.
pub open spec fn conflicts_spec(
    cand_name: Seq<char>,
    cand_path: Seq<char>,
    overlay_root: Seq<char>,
    s: Seq<(Seq<char>, EntryView)>,
    facts: Seq<PathFacts>,
) -> Seq<ConflictView> {
    conflicts_upto(cand_name, cand_path, overlay_root, s, facts, s.len() as int)
}

/// What flushing writes: the standalone entries when the registry is dirty, else nothing.
pub open spec fn persist_spec(v: RegistryView) -> Option<Seq<(Seq<char>, EntryView)>> {
    if v.dirty {
        Some(standalone_part(v.entries))
    } else {
        None
    }
}

/// The registry once its document has been written.
pub open spec fn flushed_spec(v: RegistryView) -> RegistryView {
    RegistryView { entries: v.entries, dirty: false }
}

/// Flushing twice with no change in between writes at most once: after a successful write
/// there is nothing left to write, and the entries are untouched.
pub proof fn lemma_flush_idempotent(v: RegistryView)
    ensures
        persist_spec(flushed_spec(v)) is None,
        flushed_spec(flushed_spec(v)) == flushed_spec(v),
        flushed_spec(v).entries == v.entries,
{
}

/// Loading a just-written document, with nothing found in the overlay root, reproduces the
/// registry's standalone entries: no name repeats, and the loaded entries are exactly the
/// standalone (name, path, app info) entries of the registry.
pub proof fn lemma_round_trip(v: RegistryView, d: StandaloneRepoDb)
    requires
        v.wf(),
        doc_entries(d) == standalone_part(v.entries),
    ensures
        ({
            let c = doc_entries(d) + overlay_entries_upto(Seq::<OverlayDirView>::empty(), 0);
            &&& !has_duplicate_names(c)
            &&& forall|x: (Seq<char>, EntryView)|
                c.contains(x) <==> (v.entries.contains(x) && x.1 is Standalone)
        }),
{
    let s = v.entries;
    let c = doc_entries(d) + overlay_entries_upto(Seq::<OverlayDirView>::empty(), 0);
    assert(c =~= standalone_part(s));
    lemma_standalone_upto(s, s.len() as int);
    let t = standalone_part(s);
    if has_duplicate_names(t) {
        let (i, j) = choose|i: int, j: int| 0 <= i < j < t.len() && #[trigger] t[i].0 == #[trigger] t[j].0;
        lemma_seq_lt_irreflexive(t[i].0);
    }
    assert forall|x: (Seq<char>, EntryView)| c.contains(x) <==> (s.contains(x) && x.1 is Standalone) by {
        if s.contains(x) && x.1 is Standalone {
            let i = choose|i: int| 0 <= i < s.len() && s[i] == x;
            assert(exists|i: int| 0 <= i < s.len() && #[trigger] s[i] == x && x.1 is Standalone);
        }
        if c.contains(x) {
            let i = choose|i: int| 0 <= i < s.len() && #[trigger] s[i] == x && x.1 is Standalone;
            assert(s.contains(x));
        }
    }
}

/// The standalone entries among the first `k` are those of `s[0..k)`, kept in order.
proof fn lemma_standalone_upto(s: Seq<(Seq<char>, EntryView)>, k: int)
    requires
        0 <= k <= s.len(),
        sorted_unique(s),
    ensures
        sorted_unique(standalone_upto(s, k)),
        forall|x: (Seq<char>, EntryView)|
            standalone_upto(s, k).contains(x) <==> exists|i: int|
                0 <= i < k && #[trigger] s[i] == x && x.1 is Standalone,
    decreases k,
{
    if k > 0 {
        lemma_standalone_upto(s, k - 1);
        let prev = standalone_upto(s, k - 1);
        let t = standalone_upto(s, k);
        if s[k - 1].1 is Standalone {
            assert(t == prev.push(s[k - 1]));
            assert forall|a: int, b: int| 0 <= a < b < t.len() implies seq_lt(
                #[trigger] t[a].0,
                #[trigger] t[b].0,
            ) by {
                if b == prev.len() {
                    assert(prev.contains(prev[a]));
                    let i = choose|i: int| 0 <= i < k - 1 && #[trigger] s[i] == prev[a] && prev[a].1 is Standalone;
                    assert(seq_lt(s[i].0, s[k - 1].0));
                } else {
                    assert(t[a] == prev[a]);
                    assert(t[b] == prev[b]);
                }
            }
            assert forall|x: (Seq<char>, EntryView)|
                t.contains(x) <==> exists|i: int| 0 <= i < k && #[trigger] s[i] == x && x.1 is Standalone by {
                if t.contains(x) {
                    let j = choose|j: int| 0 <= j < t.len() && t[j] == x;
                    if j < prev.len() {
                        assert(prev[j] == x);
                        assert(prev.contains(x));
                        let i = choose|i: int| 0 <= i < k - 1 && #[trigger] s[i] == x && x.1 is Standalone;
                        assert(s[i] == x);
                    } else {
                        assert(s[k - 1] == x && x.1 is Standalone);
                    }
                }
                if exists|i: int| 0 <= i < k && #[trigger] s[i] == x && x.1 is Standalone {
                    let i = choose|i: int| 0 <= i < k && #[trigger] s[i] == x && x.1 is Standalone;
                    if i < k - 1 {
                        assert(prev.contains(x));
                        let j = choose|j: int| 0 <= j < prev.len() && prev[j] == x;
                        assert(t[j] == x);
                    } else {
                        assert(t[prev.len() as int] == x);
                    }
                }
            }
        } else {
            assert forall|x: (Seq<char>, EntryView)|
                t.contains(x) <==> exists|i: int| 0 <= i < k && #[trigger] s[i] == x && x.1 is Standalone by {
                if exists|i: int| 0 <= i < k && #[trigger] s[i] == x && x.1 is Standalone {
                    let i = choose|i: int| 0 <= i < k && #[trigger] s[i] == x && x.1 is Standalone;
                    if i == k - 1 {
                        assert(false);
                    }
                }
            }
        }
    }
}

/// Whether the entry `e` is listed under `specs`, within the group `group` when one is given.
pub open spec fn listed(specs: Seq<RepoSpec>, group: Option<CliRepoKind>, e: EntryView) -> bool {
    &&& selected_by_all(specs, kind_of(e))
    &&& match group {
        Some(g) => kind_of(e) == g,
        None => true,
    }
}

/// The positions among the first `k` entries of `s` that are listed, in order.
pub open spec fn listed_upto(
    specs: Seq<RepoSpec>,
    group: Option<CliRepoKind>,
    s: Seq<(Seq<char>, EntryView)>,
    k: int,
) -> Seq<usize>
    decreases k,
{
    if k <= 0 {
        Seq::empty()
    } else {
        let prev = listed_upto(specs, group, s, k - 1);
        if listed(specs, group, s[k - 1].1) {
            prev.push((k - 1) as usize)
        } else {
            prev
        }
    }
}

/// Why a registry operation failed.
#[derive(Debug)]
pub enum RegistryError {
    /// No entry has the given name.
    NotFound,
    /// No entry lives at the given path.
    PathNotFound,
    /// The entry is an overlay, where a standalone entry was expected.
    NotStandalone,
    /// The entry is standalone, where an overlay entry was expected.
    NotOverlay,
}

/// Why registering a new entry failed.
pub enum RegisterError<E> {
    /// The candidate collides with these existing entries.
    Conflict(Vec<RepoConflictCheck>),
    /// The version-control action failed.
    Backend(E),
}

/// The registry of repository entries.
pub struct RepoDb {
    repos: Vec<(RepoName, RepoEntry)>,
    needs_persist: bool,
}

impl View for RepoDb {
    type V = RegistryView;

    closed spec fn view(&self) -> RegistryView {
        RegistryView {
            entries: self.repos@.map_values(|p: (RepoName, RepoEntry)| (p.0@, p.1@)),
            dirty: self.needs_persist,
        }
    }
}

impl RepoDb {
    /// An empty registry with nothing to persist.
    pub fn empty() -> (r: RepoDb)
        ensures
            r@.entries.len() == 0,
            !r@.dirty,
            r@.wf(),
    {
        RepoDb { repos: Vec::new(), needs_persist: false }
    }

    pub fn len(&self) -> (r: usize)
        ensures
            r == self@.entries.len(),
    {
        self.repos.len()
    }

    pub fn needs_persist(&self) -> (r: bool)
        ensures
            r == self@.dirty,
    {
        self.needs_persist
    }

    /// The entries, in name order.
    pub fn iter(&self) -> (r: &[(RepoName, RepoEntry)])
        ensures
            r@.len() == self@.entries.len(),
            forall|i: int|
                0 <= i < r@.len() ==> (#[trigger] r@[i]).0@ == self@.entries[i].0 && r@[i].1@
                    == self@.entries[i].1,
    {
        self.repos.as_slice()
    }

    /// Where `name` is, or else where it would go.
    fn locate(&self, name: &RepoName) -> (r: Result<usize, usize>)
        requires
            self@.wf(),
        ensures
            r matches Ok(i) ==> i < self@.entries.len() && self@.entries[i as int].0 == name@,
            r is Ok <==> has_name(self@.entries, name@),
            r matches Err(p) ==> {
                &&& p <= self@.entries.len()
                &&& forall|j: int| 0 <= j < p ==> seq_lt(#[trigger] self@.entries[j].0, name@)
                &&& forall|j: int|
                    p <= j < self@.entries.len() ==> seq_lt(name@, #[trigger] self@.entries[j].0)
            },
    {
        let ghost s = self@.entries;
        let len = self.repos.len();
        let mut i: usize = 0;
        while i < len && self.repos[i].0.less_than(name)
            invariant
                len == s.len(),
                s == self@.entries,
                i <= len,
                forall|j: int| 0 <= j < i ==> seq_lt(#[trigger] s[j].0, name@),
            decreases len - i,
        {
            i = i + 1;
        }
        if i < len && self.repos[i].0.eq_name(name) {
            assert(s[i as int].0 == name@);
            return Ok(i);
        }
        proof {
            if i < len {
                lemma_seq_lt_total(s[i as int].0, name@);
                assert forall|j: int| i <= j < s.len() implies seq_lt(name@, #[trigger] s[j].0) by {
                    if j > i {
                        lemma_seq_lt_transitive(name@, s[i as int].0, s[j].0);
                    }
                }
            }
            assert forall|j: int| 0 <= j < s.len() implies #[trigger] s[j].0 != name@ by {
                lemma_seq_lt_irreflexive(name@);
            }
        }
        Err(i)
    }

    /// The entry named `name`, if any.
    pub fn get_by_name_opt(&self, name: &RepoName) -> (r: Option<&RepoEntry>)
        requires
            self@.wf(),
        ensures
            r is Some <==> has_name(self@.entries, name@),
            r matches Some(e) ==> exists|i: int|
                0 <= i < self@.entries.len() && self@.entries[i].0 == name@ && #[trigger] self@.entries[i].1
                    == e@,
    {
        match self.locate(name) {
            Ok(i) => {
                assert(self@.entries[i as int].1 == self.repos@[i as int].1@);
                Some(&self.repos[i].1)
            },
            Err(_) => None,
        }
    }

    /// The entry named `name`; `NotFound` when there is none.
    pub fn get_by_name(&self, name: &RepoName) -> (r: Result<&RepoEntry, RegistryError>)
        requires
            self@.wf(),
        ensures
            r is Ok <==> has_name(self@.entries, name@),
            r matches Err(e) ==> e is NotFound,
            r matches Ok(e) ==> exists|i: int|
                0 <= i < self@.entries.len() && self@.entries[i].0 == name@ && #[trigger] self@.entries[i].1
                    == e@,
    {
        match self.get_by_name_opt(name) {
            Some(e) => Ok(e),
            None => Err(RegistryError::NotFound),
        }
    }

    /// The first entry, in name order, whose repository lives at the canonical `path`.
    pub fn get_by_path(&self, overlay_root: &str, path: &str) -> (r: Result<
        (&RepoName, &RepoEntry),
        RegistryError,
    >)
        ensures
            r matches Err(e) ==> e is PathNotFound && forall|j: int|
                0 <= j < self@.entries.len() ==> entry_path(
                    #[trigger] self@.entries[j].1,
                    overlay_root@,
                    self@.entries[j].0,
                ) != path@,
            r matches Ok((n, e)) ==> exists|i: int|
                0 <= i < self@.entries.len() && self@.entries[i].0 == n@ && #[trigger] self@.entries[i].1
                    == e@ && entry_path(e@, overlay_root@, n@) == path@ && forall|j: int|
                    0 <= j < i ==> entry_path(
                        #[trigger] self@.entries[j].1,
                        overlay_root@,
                        self@.entries[j].0,
                    ) != path@,
    {
        let len = self.repos.len();
        let mut i: usize = 0;
        while i < len
            invariant
                len == self@.entries.len(),
                i <= len,
                forall|j: int|
                    0 <= j < i ==> entry_path(
                        #[trigger] self@.entries[j].1,
                        overlay_root@,
                        self@.entries[j].0,
                    ) != path@,
            decreases len - i,
        {
            let (n, e) = &self.repos[i];
            let p = e.path(overlay_root, n);
            if crate::text::text_eq(p.as_str(), path) {
                assert(self@.entries[i as int] == (n@, e@));
                assert(self@.entries[i as int].1 == e@);
                assert(self@.entries[i as int].0 == n@);
                return Ok((n, e));
            }
            i = i + 1;
        }
        Err(RegistryError::PathNotFound)
    }

    /// Where each entry's repository lives, in name order: the paths whose filesystem facts
    /// a conflict check needs.
    pub fn entry_paths(&self, overlay_root: &str) -> (r: Vec<String>)
        ensures
            r@.len() == self@.entries.len(),
            forall|i: int|
                0 <= i < r@.len() ==> (#[trigger] r@[i])@ == entry_path(
                    self@.entries[i].1,
                    overlay_root@,
                    self@.entries[i].0,
                ),
    {
        let len = self.repos.len();
        let mut out: Vec<String> = Vec::new();
        let mut i: usize = 0;
        while i < len
            invariant
                len == self@.entries.len(),
                i <= len,
                out@.len() == i,
                forall|j: int|
                    0 <= j < i ==> (#[trigger] out@[j])@ == entry_path(
                        self@.entries[j].1,
                        overlay_root@,
                        self@.entries[j].0,
                    ),
            decreases len - i,
        {
            let (n, e) = &self.repos[i];
            out.push(e.path(overlay_root, n));
            i = i + 1;
        }
        out
    }

    /// Compares a candidate named `name` with repository path `cand_path` against every
    /// entry. `facts[i]` says whether `cand_path` and entry `i`'s path exist and whether they
    /// are the same file. Returns every entry that collides, with both field outcomes.
    pub fn find_conflicts(&self, name: &RepoName, cand_path: &String, overlay_root: &str, facts: &Vec<PathFacts>) -> (r: Vec<RepoConflictCheck>)
        requires
            facts@.len() == self@.entries.len(),
        ensures
            r@.map_values(|c: RepoConflictCheck| c@) == conflicts_spec(
                name@,
                cand_path@,
                overlay_root@,
                self@.entries,
                facts@,
            ),
    {
        let ghost s = self@.entries;
        let len = self.repos.len();
        let mut out: Vec<RepoConflictCheck> = Vec::new();
        let mut i: usize = 0;
        while i < len
            invariant
                len == s.len(),
                s == self@.entries,
                facts@.len() == len,
                i <= len,
                out@.map_values(|c: RepoConflictCheck| c@) == conflicts_upto(
                    name@,
                    cand_path@,
                    overlay_root@,
                    s,
                    facts@,
                    i as int,
                ),
            decreases len - i,
        {
            let (other_name, repo) = &self.repos[i];
            let f = facts[i];
            let name_eq = NormalizedRepoNameEq::normalized_eq(name, other_name, &());
            let other_path = repo.path(overlay_root, other_name);
            let path_eq = if !f.second_exists && !(repo.kind() == crate::cli::CliRepoKind::Overlay) {
                NormalizedEqOutcome::NotAMatch
            } else {
                NormalizedRepoPathEq::normalized_eq(cand_path, &other_path, &f)
            };
            if name_eq.matched() || path_eq.matched() {
                let check = RepoConflictCheck {
                    found_name: other_name.clone(),
                    name_eq: RepoFieldEq { found: other_name.clone(), outcome: name_eq },
                    entry_match: RepoFieldEq { found: other_path, outcome: path_eq },
                };
                out.push(check);
            }
            proof {
                assert(out@.map_values(|c: RepoConflictCheck| c@) =~= conflicts_upto(
                    name@,
                    cand_path@,
                    overlay_root@,
                    s,
                    facts@,
                    i + 1,
                ));
            }
            i = i + 1;
        }
        out
    }

    /// Inserts at `p`, where `name` keeps the entries in order.
    fn insert_at(&mut self, p: usize, name: RepoName, entry: RepoEntry)
        requires
            old(self)@.wf(),
            p <= old(self)@.entries.len(),
            forall|j: int| 0 <= j < p ==> seq_lt(#[trigger] old(self)@.entries[j].0, name@),
            forall|j: int|
                p <= j < old(self)@.entries.len() ==> seq_lt(name@, #[trigger] old(self)@.entries[j].0),
        ensures
            final(self)@.entries == old(self)@.entries.insert(p as int, (name@, entry@)),
            final(self)@.dirty == old(self)@.dirty,
            final(self)@.wf(),
    {
        let ghost s = self@.entries;
        let ghost x = (name@, entry@);
        self.repos.insert(p, (name, entry));
        proof {
            let t = self@.entries;
            assert(t =~= s.insert(p as int, x));
            assert forall|i: int, j: int| 0 <= i < j < t.len() implies seq_lt(
                #[trigger] t[i].0,
                #[trigger] t[j].0,
            ) by {
                if i < p && j == p {
                } else if i < p && j > p {
                    assert(t[j] == s[j - 1]);
                } else if i == p {
                    assert(t[j] == s[j - 1]);
                } else if i > p {
                    assert(t[i] == s[i - 1]);
                    assert(t[j] == s[j - 1]);
                }
            }
        }
    }

    /// Adds `name` with `entry` unless the name is taken; sets the dirty flag when it adds.
    fn insert(&mut self, name: RepoName, entry: RepoEntry) -> (r: Result<(), RepoName>)
        requires
            old(self)@.wf(),
        ensures
            final(self)@.wf(),
            r is Ok <==> !has_name(old(self)@.entries, name@),
            r matches Err(n) ==> n@ == name@ && final(self)@ == old(self)@,
            r is Ok ==> final(self)@.dirty && exists|p: int|
                0 <= p <= old(self)@.entries.len() && final(self)@.entries
                    == old(self)@.entries.insert(p, (name@, entry@)),
    {
        match self.locate(&name) {
            Ok(_) => Err(name),
            Err(p) => {
                self.insert_at(p, name, entry);
                self.needs_persist = true;
                Ok(())
            },
        }
    }

    /// Registers `name` with `entry`, whose repository lives under `overlay_root` when it is
    /// an overlay. `facts[i]` are the filesystem facts comparing the candidate's path with
    /// entry `i`'s, and `backend` is how the version-control action for the new entry went.
    /// A conflict comes first; then a failed action; only then is the entry added and the
    /// dirty flag set. On failure the registry is left as it was.
    pub fn register_new<E>(
        &mut self,
        name: RepoName,
        entry: RepoEntry,
        overlay_root: &str,
        facts: &Vec<PathFacts>,
        backend: Result<(), E>,
    ) -> (r: Result<(), RegisterError<E>>)
        requires
            old(self)@.wf(),
            facts@.len() == old(self)@.entries.len(),
        ensures
            final(self)@.wf(),
            ({
                let cs = conflicts_spec(
                    name@,
                    entry_path(entry@, overlay_root@, name@),
                    overlay_root@,
                    old(self)@.entries,
                    facts@,
                );
                &&& cs.len() > 0 ==> (r matches Err(RegisterError::Conflict(v)) && v@.map_values(
                    |c: RepoConflictCheck| c@,
                ) == cs)
                &&& cs.len() == 0 && backend is Err ==> (r matches Err(RegisterError::Backend(e))
                    && backend == Err::<(), E>(e))
                &&& r is Ok <==> cs.len() == 0 && backend is Ok
            }),
            r is Err ==> final(self)@ == old(self)@,
            r is Ok ==> final(self)@.dirty && !has_name(old(self)@.entries, name@) && exists|p: int|
                0 <= p <= old(self)@.entries.len() && final(self)@.entries
                    == old(self)@.entries.insert(p, (name@, entry@)),
    {
        let cand_path = entry.path(overlay_root, &name);
        let conflicts = self.find_conflicts(&name, &cand_path, overlay_root, facts);
        if conflicts.len() > 0 {
            return Err(RegisterError::Conflict(conflicts));
        }
        match backend {
            Err(e) => Err(RegisterError::Backend(e)),
            Ok(()) => {
                proof {
                    self.lemma_no_conflict_no_name(name@, cand_path@, overlay_root@, facts@);
                }
                match self.insert(name, entry) {
                    Ok(()) => Ok(()),
                    Err(_) => {
                        proof {
                            assert(false);
                        }
                        Ok(())
                    },
                }
            },
        }
    }

    /// A candidate that collides with no entry does not share a name with one.
    proof fn lemma_no_conflict_no_name(
        &self,
        name: Seq<char>,
        cand_path: Seq<char>,
        overlay_root: Seq<char>,
        facts: Seq<PathFacts>,
    )
        requires
            conflicts_spec(name, cand_path, overlay_root, self@.entries, facts).len() == 0,
        ensures
            !has_name(self@.entries, name),
    {
        let s = self@.entries;
        if has_name(s, name) {
            let i = choose|i: int| 0 <= i < s.len() && #[trigger] s[i].0 == name;
            assert(conflict_at(name, cand_path, overlay_root, s, facts, i).name is ExactMatch);
            lemma_conflicts_upto_grows(name, cand_path, overlay_root, s, facts, i + 1, s.len() as int);
        }
    }

    /// Removes the entry named `name` and returns it, setting the dirty flag; `NotFound`, with
    /// the registry unchanged, when there is none.
    pub fn remove(&mut self, name: &RepoName) -> (r: Result<RepoEntry, RegistryError>)
        requires
            old(self)@.wf(),
        ensures
            final(self)@.wf(),
            r is Ok <==> has_name(old(self)@.entries, name@),
            r matches Err(e) ==> e is NotFound && final(self)@ == old(self)@,
            r matches Ok(e) ==> final(self)@.dirty && exists|i: int|
                0 <= i < old(self)@.entries.len() && old(self)@.entries[i].0 == name@ && #[trigger] old(
                    self,
                )@.entries[i].1 == e@ && final(self)@.entries == old(self)@.entries.remove(i),
    {
        match self.locate(name) {
            Err(_) => Err(RegistryError::NotFound),
            Ok(i) => {
                let ghost s = self@.entries;
                let (_, e) = self.repos.remove(i);
                self.needs_persist = true;
                assert(s[i as int].1 == e@);
                proof {
                    let t = self@.entries;
                    assert(t =~= s.remove(i as int));
                    assert forall|a: int, b: int| 0 <= a < b < t.len() implies seq_lt(
                        #[trigger] t[a].0,
                        #[trigger] t[b].0,
                    ) by {
                        if a >= i {
                            assert(t[a] == s[a + 1]);
                        }
                        if b >= i {
                            assert(t[b] == s[b + 1]);
                        }
                    }
                }
                Ok(e)
            },
        }
    }

    /// Removes the standalone entry named `name`, leaving its files alone.
    pub fn deregister_standalone(&mut self, name: &RepoName) -> (r: Result<RepoEntry, RegistryError>)
        requires
            old(self)@.wf(),
        ensures
            final(self)@.wf(),
            !has_name(old(self)@.entries, name@) ==> (r matches Err(e) && e is NotFound),
            r matches Err(e) ==> final(self)@ == old(self)@ && (e is NotFound || e is NotStandalone),
            r matches Ok(e) ==> e@ is Standalone,
            r is Ok <==> exists|i: int|
                0 <= i < old(self)@.entries.len() && old(self)@.entries[i].0 == name@ && (#[trigger] old(
                    self,
                )@.entries[i].1) is Standalone,
            r matches Ok(e) ==> final(self)@.dirty && exists|i: int|
                0 <= i < old(self)@.entries.len() && old(self)@.entries[i].0 == name@ && #[trigger] old(
                    self,
                )@.entries[i].1 == e@ && final(self)@.entries == old(self)@.entries.remove(i),
    {
        let is_standalone = match self.get_by_name(name) {
            Err(e) => {
                return Err(e);
            },
            Ok(e) => e.kind() == crate::cli::CliRepoKind::Standalone,
        };
        proof {
            self.lemma_names_unique(name@);
        }
        if !is_standalone {
            return Err(RegistryError::NotStandalone);
        }
        self.remove(name)
    }

    /// Removes the overlay entry named `name`, and returns where its bare repository lives,
    /// under `overlay_root`, so that the caller can delete it; the work tree is left alone.
    pub fn remove_overlay_bare_repo(&mut self, overlay_root: &str, name: &RepoName) -> (r: Result<String, RegistryError>)
        requires
            old(self)@.wf(),
        ensures
            final(self)@.wf(),
            !has_name(old(self)@.entries, name@) ==> (r matches Err(e) && e is NotFound),
            r matches Err(e) ==> final(self)@ == old(self)@ && (e is NotFound || e is NotOverlay),
            r is Ok <==> exists|i: int|
                0 <= i < old(self)@.entries.len() && old(self)@.entries[i].0 == name@ && (#[trigger] old(
                    self,
                )@.entries[i].1) is Overlay,
            r matches Ok(p) ==> p@ == crate::entry::join_path_spec(overlay_root@, name@) && final(self)@.dirty && exists|i: int|
                0 <= i < old(self)@.entries.len() && #[trigger] old(self)@.entries[i].0 == name@
                    && final(self)@.entries == old(self)@.entries.remove(i),
    {
        let is_overlay = match self.get_by_name(name) {
            Err(e) => {
                return Err(e);
            },
            Ok(e) => e.kind() == crate::cli::CliRepoKind::Overlay,
        };
        proof {
            self.lemma_names_unique(name@);
        }
        if !is_overlay {
            return Err(RegistryError::NotOverlay);
        }
        match self.remove(name) {
            Ok(e) => Ok(e.path(overlay_root, name)),
            Err(e) => Err(e),
        }
    }

    /// In a well-formed registry a name picks out at most one entry.
    proof fn lemma_names_unique(&self, n: Seq<char>)
        requires
            self@.wf(),
        ensures
            forall|i: int, j: int|
                0 <= i < self@.entries.len() && 0 <= j < self@.entries.len() && #[trigger] self@.entries[i].0
                    == n && #[trigger] self@.entries[j].0 == n ==> i == j,
    {
        let s = self@.entries;
        assert forall|i: int, j: int|
            0 <= i < s.len() && 0 <= j < s.len() && #[trigger] s[i].0 == n && #[trigger] s[j].0 == n implies i == j by {
            lemma_seq_lt_irreflexive(n);
            if i < j {
                assert(seq_lt(s[i].0, s[j].0));
            } else if j < i {
                assert(seq_lt(s[j].0, s[i].0));
            }
        }
    }
    /// Builds the registry from the persisted document and the items found in the overlay
    /// root. Items that are not directories or whose names are not valid names are skipped,
    /// each with a warning. A name that occurs twice, whether from the document and the
    /// overlay root or twice from one of them, is a fatal `NameConflict`. The new registry has
    /// nothing to persist.
    pub fn new(standalone: StandaloneRepoDb, overlay_items: Vec<OverlayDirEntry>) -> (r: Result<
        (RepoDb, Vec<LoadWarning>),
        LoadError,
    >)
        ensures
            ({
                let os = scan_view(overlay_items@);
                let c = doc_entries(standalone) + overlay_entries_upto(os, os.len() as int);
                let sk = skipped_upto(os, os.len() as int);
                &&& r is Err <==> has_duplicate_names(c)
                &&& r matches Err(LoadError::NameConflict { name }) ==> exists|i: int, j: int|
                    0 <= i < j < c.len() && #[trigger] c[i].0 == name@ && #[trigger] c[j].0 == name@
                &&& r matches Ok((db, ws)) ==> {
                    &&& db@.wf()
                    &&& !db@.dirty
                    &&& db@.entries.len() == c.len()
                    &&& forall|x: (Seq<char>, EntryView)| db@.entries.contains(x) <==> c.contains(x)
                    &&& ws@.len() == sk.len()
                    &&& forall|k: int| 0 <= k < sk.len() ==> warning_for(#[trigger] ws@[k], sk[k])
                }
            }),
    {
        let ghost d = doc_entries(standalone);
        let ghost os = scan_view(overlay_items@);
        let mut db = RepoDb::empty();
        let mut items = standalone.standalone_repos;
        let n_doc = items.len();
        let mut i: usize = 0;
        while i < n_doc
            invariant
                d == doc_entries(standalone),
                os == scan_view(overlay_items@),
                n_doc == d.len(),
                i <= n_doc,
                items@.len() == n_doc - i,
                forall|k: int| 0 <= k < items@.len() ==> (#[trigger] items@[k]).0@ == d[i + k].0
                    && standalone_view(items@[k].1) == d[i + k].1,
                db@.wf(),
                !has_duplicate_names(d.take(i as int)),
                db@.entries.len() == i,
                forall|x: (Seq<char>, EntryView)| db@.entries.contains(x) <==> d.take(i as int).contains(x),
            decreases n_doc - i,
        {
            let (name, entry) = items.remove(0);
            let ghost x = d[i as int];
            let e = RepoEntry::standalone(entry.path, entry.app_info);
            let ghost before = db@.entries;
            assert((name@, e@) == x);
            proof {
                lemma_push_contains(d.take(i as int), x);
                lemma_names_match_contents(before, d.take(i as int), x.0);
                assert(d.take(i + 1) =~= d.take(i as int).push(x));
                lemma_dup_push(d.take(i as int), x);
            }
            match db.insert(name, e) {
                Err(name) => {
                    proof {
                        let c = d + overlay_entries_upto(os, os.len() as int);
                        let a = choose|a: int| 0 <= a < i && #[trigger] d.take(i as int)[a].0 == x.0;
                        assert(d.take(i as int)[a] == d[a]);
                        assert(c[a] == d[a]);
                        assert(c[i as int] == d[i as int]);
                        assert(c[a].0 == name@ && c[i as int].0 == name@);
                    }
                    return Err(LoadError::NameConflict { name });
                },
                Ok(()) => {
                    proof {
                        lemma_insert_contents(before, db@.entries, x);
                    }
                },
            }
            i = i + 1;
        }
        db.needs_persist = false;
        assert(d.take(n_doc as int) =~= d);
        let mut warnings: Vec<LoadWarning> = Vec::new();
        let mut pending = overlay_items;
        let n_ov = pending.len();
        let mut k: usize = 0;
        while k < n_ov
            invariant
                d == doc_entries(standalone),
                os == scan_view(overlay_items@),
                n_ov == os.len(),
                k <= n_ov,
                pending@.len() == n_ov - k,
                forall|m: int| 0 <= m < pending@.len() ==> (#[trigger] pending@[m])@ == os[k + m],
                db@.wf(),
                !db@.dirty,
                !has_duplicate_names(d + overlay_entries_upto(os, k as int)),
                db@.entries.len() == (d + overlay_entries_upto(os, k as int)).len(),
                forall|x: (Seq<char>, EntryView)| db@.entries.contains(x) <==> (d + overlay_entries_upto(os, k as int)).contains(x),
                warnings@.len() == skipped_upto(os, k as int).len(),
                forall|m: int| 0 <= m < warnings@.len() ==> warning_for(#[trigger] warnings@[m], skipped_upto(os, k as int)[m]),
            decreases n_ov - k,
        {
            let item = pending.remove(0);
            let ghost o = os[k as int];
            let ghost pre = d + overlay_entries_upto(os, k as int);
            assert(item@ == o);
            match item.file_name {
                None => {
                    warnings.push(LoadWarning::NotUtf8);
                    proof {
                        assert(overlay_entries_upto(os, k + 1) == overlay_entries_upto(os, k as int));
                    }
                },
                Some(f) => match RepoName::new(f.clone()) {
                    Err(error) => {
                        warnings.push(LoadWarning::InvalidName { file_name: f, error });
                        proof {
                            assert(overlay_entries_upto(os, k + 1) == overlay_entries_upto(os, k as int));
                        }
                    },
                    Ok(name) => {
                        if !item.is_dir {
                            warnings.push(LoadWarning::NotADirectory { name });
                            proof {
                                assert(overlay_entries_upto(os, k + 1) == overlay_entries_upto(os, k as int));
                            }
                        } else {
                            let ghost x = (name@, EntryView::Overlay);
                            let ghost before = db@.entries;
                            proof {
                                assert(d + overlay_entries_upto(os, k + 1) =~= pre.push(x));
                                lemma_push_contains(pre, x);
                                lemma_names_match_contents(before, pre, x.0);
                                lemma_dup_push(pre, x);
                            }
                            match db.insert(name, RepoEntry::overlay()) {
                                Err(name) => {
                                    proof {
                                        let c = d + overlay_entries_upto(os, os.len() as int);
                                        lemma_overlay_prefix(os, k + 1, os.len() as int);
                                        let a = choose|a: int| 0 <= a < pre.len() && #[trigger] pre[a].0 == x.0;
                                        assert(pre.push(x) =~= c.take(pre.len() + 1 as int));
                                        assert(c.take(pre.len() + 1 as int)[a] == c[a]);
                                        assert(c.take(pre.len() + 1 as int)[pre.len() as int] == c[pre.len() as int]);
                                        assert(c[a].0 == name@);
                                        assert(c[pre.len() as int].0 == name@);
                                    }
                                    return Err(LoadError::NameConflict { name });
                                },
                                Ok(()) => {
                                    proof {
                                        lemma_insert_contents(before, db@.entries, x);
                                    }
                                },
                            }
                            db.needs_persist = false;
                        }
                    },
                },
            }
            k = k + 1;
        }
        Ok((db, warnings))
    }

    /// The positions, in name order, of the entries that every one of `specs` selects and,
    /// when `group` is given, that are of that kind.
    pub fn list_matching(&self, specs: &Vec<RepoSpec>, group: Option<CliRepoKind>) -> (r: Vec<usize>)
        ensures
            r@ == listed_upto(specs@, group, self@.entries, self@.entries.len() as int),
    {
        let len = self.repos.len();
        let mut out: Vec<usize> = Vec::new();
        let mut i: usize = 0;
        while i < len
            invariant
                len == self@.entries.len(),
                i <= len,
                out@ == listed_upto(specs@, group, self@.entries, i as int),
            decreases len - i,
        {
            let (name, repo) = &self.repos[i];
            let mut all = true;
            let mut k: usize = 0;
            while k < specs.len()
                invariant
                    k <= specs@.len(),
                    repo@ == self@.entries[i as int].1,
                    all == forall|m: int| 0 <= m < k ==> match #[trigger] specs@[m] {
                        RepoSpec::All => true,
                        RepoSpec::Kind(kk) => kk == kind_of(repo@),
                    },
                decreases specs@.len() - k,
            {
                if !specs[k].matches(name, repo) {
                    all = false;
                }
                k = k + 1;
            }
            let in_group = match group {
                Some(g) => repo.kind() == g,
                None => true,
            };
            if all && in_group {
                out.push(i);
            }
            i = i + 1;
        }
        out
    }

    /// The document to write when the registry changed since it was last persisted: its
    /// standalone entries, in name order. `None` when there is nothing to write.
    pub fn to_persist(&self) -> (r: Option<StandaloneRepoDb>)
        ensures
            r is None <==> persist_spec(self@) is None,
            r matches Some(d) ==> persist_spec(self@) == Some(doc_entries(d)),
    {
        if !self.needs_persist {
            return None;
        }
        let ghost s = self@.entries;
        let mut out: Vec<(RepoName, StandaloneRepoEntry)> = Vec::new();
        let len = self.repos.len();
        let mut i: usize = 0;
        while i < len
            invariant
                s == self@.entries,
                len == s.len(),
                i <= len,
                out@.map_values(|p: (RepoName, StandaloneRepoEntry)| (p.0@, standalone_view(p.1)))
                    == standalone_upto(s, i as int),
            decreases len - i,
        {
            let (name, entry) = &self.repos[i];
            match entry.entry_kind() {
                crate::entry::RepoEntryKind::Standalone { path, app_info } => {
                    let a = match app_info {
                        Some(x) => Some(x.duplicate()),
                        None => None,
                    };
                    out.push((name.clone(), StandaloneRepoEntry { path: path.clone(), app_info: a }));
                },
                crate::entry::RepoEntryKind::Overlay => {},
            }
            proof {
                assert(out@.map_values(|p: (RepoName, StandaloneRepoEntry)| (p.0@, standalone_view(p.1)))
                    =~= standalone_upto(s, i + 1));
            }
            i = i + 1;
        }
        Some(StandaloneRepoDb { standalone_repos: out })
    }

    /// Completes a flush once the document from `to_persist` was written, or not: after a
    /// successful write nothing is left to persist; after a failed one the registry is
    /// unchanged, and the failure is handed back.
    pub fn flush<E>(&mut self, written: Result<(), E>) -> (r: Result<(), E>)
        ensures
            r == written,
            written is Ok ==> final(self)@ == flushed_spec(old(self)@),
            written is Err ==> final(self)@ == old(self)@,
    {
        if written.is_ok() {
            self.needs_persist = false;
        }
        written
    }

}

/// A colliding entry among the first `k` is among the conflicts found in the first `m`.
proof fn lemma_conflicts_upto_grows(
    cand_name: Seq<char>,
    cand_path: Seq<char>,
    overlay_root: Seq<char>,
    s: Seq<(Seq<char>, EntryView)>,
    facts: Seq<PathFacts>,
    k: int,
    m: int,
)
    requires
        1 <= k <= m,
        is_conflict(conflict_at(cand_name, cand_path, overlay_root, s, facts, k - 1)),
    ensures
        conflicts_upto(cand_name, cand_path, overlay_root, s, facts, m).contains(
            conflict_at(cand_name, cand_path, overlay_root, s, facts, k - 1),
        ),
    decreases m - k,
{
    let c = conflict_at(cand_name, cand_path, overlay_root, s, facts, k - 1);
    if m == k {
        let prev = conflicts_upto(cand_name, cand_path, overlay_root, s, facts, k - 1);
        assert(prev.push(c)[prev.len() as int] == c);
    } else {
        lemma_conflicts_upto_grows(cand_name, cand_path, overlay_root, s, facts, k, m - 1);
        let prev = conflicts_upto(cand_name, cand_path, overlay_root, s, facts, m - 1);
        let j = choose|j: int| 0 <= j < prev.len() && prev[j] == c;
        let d = conflict_at(cand_name, cand_path, overlay_root, s, facts, m - 1);
        if is_conflict(d) {
            assert(prev.push(d)[j] == c);
        }
    }
}

/// Registering a name and path that are already registered collides with that entry, with
/// both the name and the path matching exactly. This holds when the filesystem reports the
/// path as existing and the same file as itself, or, for an overlay entry, as absent on
/// both sides.
pub proof fn lemma_repeat_register_conflicts(
    v: RegistryView,
    i: int,
    overlay_root: Seq<char>,
    facts: Seq<PathFacts>,
)
    requires
        v.wf(),
        0 <= i < v.entries.len(),
        facts.len() == v.entries.len(),
        (facts[i].first_exists && facts[i].second_exists && facts[i].same_file) || (
        !facts[i].first_exists && !facts[i].second_exists && v.entries[i].1 is Overlay),
    ensures
        ({
            let n = v.entries[i].0;
            let p = entry_path(v.entries[i].1, overlay_root, n);
            conflicts_spec(n, p, overlay_root, v.entries, facts).contains(
                ConflictView {
                    found_name: n,
                    name: NormalizedEqOutcome::ExactMatch,
                    found_path: p,
                    path: NormalizedEqOutcome::ExactMatch,
                },
            )
        }),
{
    let n = v.entries[i].0;
    let p = entry_path(v.entries[i].1, overlay_root, n);
    let c = conflict_at(n, p, overlay_root, v.entries, facts, i);
    assert(c.name is ExactMatch);
    assert(c.path is ExactMatch);
    lemma_conflicts_upto_grows(n, p, overlay_root, v.entries, facts, i + 1, v.entries.len() as int);
}

/// Two sequences with the same elements have the same names.
proof fn lemma_names_match_contents(
    a: Seq<(Seq<char>, EntryView)>,
    b: Seq<(Seq<char>, EntryView)>,
    n: Seq<char>,
)
    requires
        forall|x: (Seq<char>, EntryView)| a.contains(x) <==> b.contains(x),
    ensures
        has_name(a, n) <==> has_name(b, n),
{
    if has_name(a, n) {
        let i = choose|i: int| 0 <= i < a.len() && #[trigger] a[i].0 == n;
        assert(a.contains(a[i]));
        let j = choose|j: int| 0 <= j < b.len() && b[j] == a[i];
        assert(b[j].0 == n);
    }
    if has_name(b, n) {
        let i = choose|i: int| 0 <= i < b.len() && #[trigger] b[i].0 == n;
        assert(b.contains(b[i]));
        let j = choose|j: int| 0 <= j < a.len() && a[j] == b[i];
        assert(a[j].0 == n);
    }
}

proof fn lemma_push_contains(s: Seq<(Seq<char>, EntryView)>, x: (Seq<char>, EntryView))
    ensures
        forall|y: (Seq<char>, EntryView)| s.push(x).contains(y) <==> s.contains(y) || y == x,
{
    let t = s.push(x);
    assert forall|y: (Seq<char>, EntryView)| t.contains(y) <==> s.contains(y) || y == x by {
        if t.contains(y) {
            let i = choose|i: int| 0 <= i < t.len() && t[i] == y;
            if i < s.len() {
                assert(s[i] == y);
            }
        }
        if s.contains(y) {
            let i = choose|i: int| 0 <= i < s.len() && s[i] == y;
            assert(t[i] == y);
        }
        if y == x {
            assert(t[s.len() as int] == y);
        }
    }
}

/// Appending `x` makes a name repeat exactly when one repeated already or `x`'s name occurs.
proof fn lemma_dup_push(c: Seq<(Seq<char>, EntryView)>, x: (Seq<char>, EntryView))
    ensures
        has_duplicate_names(c.push(x)) <==> has_duplicate_names(c) || has_name(c, x.0),
{
    let t = c.push(x);
    if has_duplicate_names(t) {
        let (i, j) = choose|i: int, j: int| 0 <= i < j < t.len() && #[trigger] t[i].0 == #[trigger] t[j].0;
        if j < c.len() {
            assert(c[i].0 == c[j].0);
        } else {
            assert(c[i].0 == x.0);
        }
    }
    if has_duplicate_names(c) {
        let (i, j) = choose|i: int, j: int| 0 <= i < j < c.len() && #[trigger] c[i].0 == #[trigger] c[j].0;
        assert(t[i].0 == t[j].0);
    }
    if has_name(c, x.0) {
        let i = choose|i: int| 0 <= i < c.len() && #[trigger] c[i].0 == x.0;
        assert(t[i].0 == t[c.len() as int].0);
    }
}

/// After inserting `x`, the elements are those before and `x`.
proof fn lemma_insert_contents(
    before: Seq<(Seq<char>, EntryView)>,
    after: Seq<(Seq<char>, EntryView)>,
    x: (Seq<char>, EntryView),
)
    requires
        exists|p: int| 0 <= p <= before.len() && after == before.insert(p, x),
    ensures
        forall|y: (Seq<char>, EntryView)| after.contains(y) <==> before.contains(y) || y == x,
        after.len() == before.len() + 1,
{
    let p = choose|p: int| 0 <= p <= before.len() && after == before.insert(p, x);
    assert forall|y: (Seq<char>, EntryView)| after.contains(y) <==> before.contains(y) || y == x by {
        if after.contains(y) {
            let i = choose|i: int| 0 <= i < after.len() && after[i] == y;
            if i < p {
                assert(before[i] == y);
            } else if i > p {
                assert(before[i - 1] == y);
            }
        }
        if before.contains(y) {
            let i = choose|i: int| 0 <= i < before.len() && before[i] == y;
            if i < p {
                assert(after[i] == y);
            } else {
                assert(after[i + 1] == y);
            }
        }
        if y == x {
            assert(after[p] == y);
        }
    }
}

/// The overlay entries of a shorter scan prefix begin those of a longer one.
proof fn lemma_overlay_prefix(os: Seq<OverlayDirView>, k: int, m: int)
    requires
        0 <= k <= m,
    ensures
        overlay_entries_upto(os, k).len() <= overlay_entries_upto(os, m).len(),
        overlay_entries_upto(os, m).take(overlay_entries_upto(os, k).len() as int)
            == overlay_entries_upto(os, k),
    decreases m - k,
{
    if k < m {
        lemma_overlay_prefix(os, k, m - 1);
        let a = overlay_entries_upto(os, k);
        let b = overlay_entries_upto(os, m - 1);
        let c = overlay_entries_upto(os, m);
        assert(c.take(a.len() as int) =~= b.take(a.len() as int));
    } else {
        let a = overlay_entries_upto(os, k);
        assert(a.take(a.len() as int) =~= a);
    }
}

} // verus!
