//! The persisted document of standalone entries, and what an overlay-root scan reports.
use crate::entry::{app_info_view, AppInfo, EntryView};
use crate::name::{is_valid_name, validation_outcome, InvalidRepoNameError, RepoName};
use crate::git::{trim_text, trimmed};
use vstd::prelude::*;

verus! {

/// What the document records of one standalone entry.
pub struct StandaloneRepoEntry {
    pub path: String,
    pub app_info: Option<AppInfo>,
}

/// The persisted document: each standalone entry by name. Overlay entries are never in it.
pub struct StandaloneRepoDb {
    pub standalone_repos: Vec<(RepoName, StandaloneRepoEntry)>,
}

pub open spec fn standalone_view(e: StandaloneRepoEntry) -> EntryView {
    EntryView::Standalone { path: e.path@, app_info: app_info_view(e.app_info) }
}

/// The entries a document describes, in document order.
pub open spec fn doc_entries(d: StandaloneRepoDb) -> Seq<(Seq<char>, EntryView)> {
    d.standalone_repos@.map_values(|p: (RepoName, StandaloneRepoEntry)| (p.0@, standalone_view(p.1)))
}

impl StandaloneRepoDb {
    /// A document with no entries, as an empty or newly created file reads.
    pub fn empty() -> (r: StandaloneRepoDb)
        ensures
            doc_entries(r).len() == 0,
    {
        StandaloneRepoDb { standalone_repos: Vec::new() }
    }
}

/// Whether the text of a document holds nothing but whitespace: such a document, like an
/// empty or newly created file, holds no entries.
pub fn document_is_blank(text: &str) -> (r: bool)
    ensures
        r == (trimmed(text@).len() == 0),
{
    trim_text(text).unicode_len() == 0
}

/// One item found in the overlay-root directory.
pub struct OverlayDirEntry {
    /// The item's file name, or `None` when it is not valid UTF-8.
    pub file_name: Option<String>,
    /// Whether the item is a directory.
    pub is_dir: bool,
}

/// The abstract value of an `OverlayDirEntry`.
pub struct OverlayDirView {
    pub file_name: Option<Seq<char>>,
    pub is_dir: bool,
}

impl View for OverlayDirEntry {
    type V = OverlayDirView;

    open spec fn view(&self) -> OverlayDirView {
        OverlayDirView {
            file_name: match self.file_name {
                Some(f) => Some(f@),
                None => None,
            },
            is_dir: self.is_dir,
        }
    }
}

/// The abstract values of the items of a scan.
pub open spec fn scan_view(items: Seq<OverlayDirEntry>) -> Seq<OverlayDirView> {
    items.map_values(|o: OverlayDirEntry| o@)
}

/// The repository an overlay-root item stands for: a directory whose name is a valid name.
pub open spec fn overlay_name_of(o: OverlayDirView) -> Option<Seq<char>> {
    match o.file_name {
        Some(f) => if is_valid_name(f) && o.is_dir {
            Some(f)
        } else {
            None
        },
        None => None,
    }
}

/// The overlay entries that the first `k` items of a scan stand for, in order.
pub open spec fn overlay_entries_upto(os: Seq<OverlayDirView>, k: int) -> Seq<(Seq<char>, EntryView)>
    decreases k,
{
    if k <= 0 {
        Seq::empty()
    } else {
        let prev = overlay_entries_upto(os, k - 1);
        match overlay_name_of(os[k - 1]) {
            Some(n) => prev.push((n, EntryView::Overlay)),
            None => prev,
        }
    }
}

/// The items of the first `k` of a scan that are skipped, in order.
pub open spec fn skipped_upto(os: Seq<OverlayDirView>, k: int) -> Seq<OverlayDirView>
    decreases k,
{
    if k <= 0 {
        Seq::empty()
    } else {
        let prev = skipped_upto(os, k - 1);
        match overlay_name_of(os[k - 1]) {
            Some(n) => prev,
            None => prev.push(os[k - 1]),
        }
    }
}

/// Why an overlay-root item was skipped.
#[derive(Debug)]
pub enum LoadWarning {
    /// The file name is not valid UTF-8.
    NotUtf8,
    /// The file name is not a valid repository name.
    InvalidName { file_name: String, error: InvalidRepoNameError },
    /// The item is not a directory.
    NotADirectory { name: RepoName },
}

/// Whether `w` is the warning for the skipped item `o`.
pub open spec fn warning_for(w: LoadWarning, o: OverlayDirView) -> bool {
    match o.file_name {
        None => w is NotUtf8,
        Some(f) => if !is_valid_name(f) {
            match w {
                LoadWarning::InvalidName { file_name, error } => file_name@ == f
                    && validation_outcome(f, Err(error)),
                _ => false,
            }
        } else {
            match w {
                LoadWarning::NotADirectory { name } => name@ == f,
                _ => false,
            }
        },
    }
}

/// Why loading failed.
#[derive(Debug)]
pub enum LoadError {
    /// `name` came from two sources: the document and the overlay root, or twice from one.
    NameConflict { name: RepoName },
}

/// The standalone entries among the first `k` of `s`, in order.
pub open spec fn standalone_upto(s: Seq<(Seq<char>, EntryView)>, k: int) -> Seq<(Seq<char>, EntryView)>
    decreases k,
{
    if k <= 0 {
        Seq::empty()
    } else {
        let prev = standalone_upto(s, k - 1);
        if s[k - 1].1 is Standalone {
            prev.push(s[k - 1])
        } else {
            prev
        }
    }
}

/// The standalone entries of `s`, in order: what persisting writes.
pub open spec fn standalone_part(s: Seq<(Seq<char>, EntryView)>) -> Seq<(Seq<char>, EntryView)> {
    standalone_upto(s, s.len() as int)
}

} // verus!
