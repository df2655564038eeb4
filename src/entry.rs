//! Registry entries: standalone working copies at a stored path, and overlay repositories
//! whose location is derived from their name.
use crate::cli::CliRepoKind;
use crate::git::OpenRepoOptions;
use crate::name::RepoName;
use vstd::prelude::*;

verus! {

/// `base` with `segment` appended as one more path component.
pub open spec fn join_path_spec(base: Seq<char>, segment: Seq<char>) -> Seq<char> {
    if base.len() == 0 || base.last() == '/' {
        base + segment
    } else {
        base + seq!['/'] + segment
    }
}

/// Appends `segment` to `base` as one more path component.
pub fn join_path(base: &str, segment: &str) -> (r: String)
    ensures
        r@ == join_path_spec(base@, segment@),
{
    let len = base.unicode_len();
    let mut out = String::from_str(base);
    if len > 0 && base.get_char(len - 1) != '/' {
        out.append("/");
    }
    out.append(segment);
    proof {
        reveal_strlit("/");
    }
    out
}

/// What a standalone repository records of the application it configures.
pub struct AppInfo {
    pub qualifier: String,
    pub organization: String,
    pub application: String,
}

/// The abstract value of an `AppInfo`.
pub struct AppInfoView {
    pub qualifier: Seq<char>,
    pub organization: Seq<char>,
    pub application: Seq<char>,
}

impl View for AppInfo {
    type V = AppInfoView;

    open spec fn view(&self) -> AppInfoView {
        AppInfoView {
            qualifier: self.qualifier@,
            organization: self.organization@,
            application: self.application@,
        }
    }
}

impl AppInfo {
    pub fn new(qualifier: String, organization: String, application: String) -> (r: AppInfo)
        ensures
            r.qualifier@ == qualifier@,
            r.organization@ == organization@,
            r.application@ == application@,
    {
        AppInfo { qualifier, organization, application }
    }

    pub fn duplicate(&self) -> (r: AppInfo)
        ensures
            r@ == self@,
    {
        AppInfo {
            qualifier: self.qualifier.clone(),
            organization: self.organization.clone(),
            application: self.application.clone(),
        }
    }
}

pub open spec fn app_info_view(a: Option<AppInfo>) -> Option<AppInfoView> {
    match a {
        Some(i) => Some(i@),
        None => None,
    }
}

/// The two kinds of entry the registry holds.
pub enum RepoEntryKind {
    /// A bare repository whose work tree is the home directory; its location is always
    /// `<overlay root>/<name>`.
    Overlay,
    /// An ordinary working copy at an absolute, canonical `path`.
    Standalone { path: String, app_info: Option<AppInfo> },
}

/// The abstract value of an entry.
pub enum EntryView {
    Overlay,
    Standalone { path: Seq<char>, app_info: Option<AppInfoView> },
}

impl View for RepoEntryKind {
    type V = EntryView;

    open spec fn view(&self) -> EntryView {
        match self {
            RepoEntryKind::Overlay => EntryView::Overlay,
            RepoEntryKind::Standalone { path, app_info } => EntryView::Standalone {
                path: path@,
                app_info: app_info_view(*app_info),
            },
        }
    }
}

pub open spec fn kind_of(e: EntryView) -> CliRepoKind {
    match e {
        EntryView::Overlay => CliRepoKind::Overlay,
        EntryView::Standalone { .. } => CliRepoKind::Standalone,
    }
}

/// Where the repository of an entry named `name` lives.
pub open spec fn entry_path(e: EntryView, overlay_root: Seq<char>, name: Seq<char>) -> Seq<char> {
    match e {
        EntryView::Overlay => join_path_spec(overlay_root, name),
        EntryView::Standalone { path, .. } => path,
    }
}

/// The work tree of an entry: the home directory for an overlay, else the stored path.
pub open spec fn entry_work_tree(e: EntryView, home: Seq<char>) -> Seq<char> {
    match e {
        EntryView::Overlay => home,
        EntryView::Standalone { path, .. } => path,
    }
}

impl RepoEntryKind {
    pub fn kind(&self) -> (r: CliRepoKind)
        ensures
            r == kind_of(self@),
    {
        match self {
            RepoEntryKind::Standalone { .. } => CliRepoKind::Standalone,
            RepoEntryKind::Overlay => CliRepoKind::Overlay,
        }
    }

    pub fn path(&self, overlay_root: &str, name: &RepoName) -> (r: String)
        ensures
            r@ == entry_path(self@, overlay_root@, name@),
    {
        match self {
            RepoEntryKind::Overlay => join_path(overlay_root, name.as_single_path_segment()),
            RepoEntryKind::Standalone { path, .. } => path.clone(),
        }
    }

    pub fn work_tree_path(&self, home: &str) -> (r: String)
        ensures
            r@ == entry_work_tree(self@, home@),
    {
        match self {
            RepoEntryKind::Overlay => String::from_str(home),
            RepoEntryKind::Standalone { path, .. } => path.clone(),
        }
    }
}

/// One entry of the registry.
pub struct RepoEntry {
    kind: RepoEntryKind,
}

impl View for RepoEntry {
    type V = EntryView;

    closed spec fn view(&self) -> EntryView {
        self.kind@
    }
}

impl RepoEntry {
    pub fn overlay() -> (r: RepoEntry)
        ensures
            r@ == EntryView::Overlay,
    {
        RepoEntry { kind: RepoEntryKind::Overlay }
    }

    pub fn standalone(path: String, app_info: Option<AppInfo>) -> (r: RepoEntry)
        ensures
            r@ == (EntryView::Standalone { path: path@, app_info: app_info_view(app_info) }),
    {
        RepoEntry { kind: RepoEntryKind::Standalone { path, app_info } }
    }

    pub fn entry_kind(&self) -> (r: &RepoEntryKind)
        ensures
            r@ == self@,
    {
        &self.kind
    }

    pub fn kind(&self) -> (r: CliRepoKind)
        ensures
            r == kind_of(self@),
    {
        self.kind.kind()
    }

    /// The stored path of a standalone entry.
    pub fn standalone_path(&self) -> (r: Option<&str>)
        ensures
            r matches Some(p) <==> self@ matches EntryView::Standalone { .. },
            r matches Some(p) ==> self@ matches EntryView::Standalone { path, .. } && p@ == path,
    {
        match &self.kind {
            RepoEntryKind::Standalone { path, .. } => Some(path.as_str()),
            RepoEntryKind::Overlay => None,
        }
    }

    /// Where the repository lives: `<overlay_root>/<name>` for an overlay entry, else the
    /// stored path.
    pub fn path(&self, overlay_root: &str, name: &RepoName) -> (r: String)
        ensures
            r@ == entry_path(self@, overlay_root@, name@),
    {
        self.kind.path(overlay_root, name)
    }

    /// The work tree: `home` for an overlay entry, else the stored path.
    pub fn work_tree_path(&self, home: &str) -> (r: String)
        ensures
            r@ == entry_work_tree(self@, home@),
    {
        self.kind.work_tree_path(home)
    }

    /// How to open the repository of this entry, which lives at `path`: an overlay is bare,
    /// with the home directory `home` as its work tree; a standalone entry is normal.
    pub fn open_options<'a>(&self, path: &'a str, home: &'a str) -> (r: OpenRepoOptions<'a>)
        ensures
            match self@ {
                EntryView::Overlay => r matches OpenRepoOptions::Bare { repo_path, work_tree_path }
                    && repo_path@ == path@ && work_tree_path@ == home@,
                EntryView::Standalone { .. } => r matches OpenRepoOptions::Normal {
                    work_tree_path,
                } && work_tree_path@ == path@,
            },
    {
        match &self.kind {
            RepoEntryKind::Overlay => OpenRepoOptions::Bare { repo_path: path, work_tree_path: home },
            RepoEntryKind::Standalone { .. } => OpenRepoOptions::Normal { work_tree_path: path },
        }
    }

    /// A short description for messages.
    pub fn short_desc(&self) -> (r: String)
        ensures
            r@ == short_desc_spec(self@),
    {
        proof {
            reveal_strlit("overlay repo");
            reveal_strlit("standalone repo at ");
        }
        match &self.kind {
            RepoEntryKind::Standalone { path, .. } => {
                let mut s = String::from_str("standalone repo at ");
                s.append(path.as_str());
                s
            },
            RepoEntryKind::Overlay => String::from_str("overlay repo"),
        }
    }

}

pub open spec fn short_desc_spec(e: EntryView) -> Seq<char> {
    match e {
        EntryView::Standalone { path, .. } => "standalone repo at "@ + path,
        EntryView::Overlay => "overlay repo"@,
    }
}

/// The path of the excludes file an overlay repository named `name` uses:
/// `<home>/.gitignore.d/<name>`.
pub fn overlay_excludes_file_path(home: &str, name: &RepoName) -> (r: String)
    ensures
        r@ == join_path_spec(join_path_spec(home@, ".gitignore.d"@), name@),
{
    let dir = join_path(home, ".gitignore.d");
    join_path(dir.as_str(), name.as_single_path_segment())
}

} // verus!
