use capisco::conflict::{NormalizedRepoNameEq, NormalizedRepoPathEq, PathFacts, RepoConflictCheck};
use capisco::entry::{AppInfo, RepoEntry};
use capisco::name::RepoName;
use capisco::normalization::NormalizedEqOutcome;
use capisco::persist::{LoadError, LoadWarning, OverlayDirEntry, StandaloneRepoDb, StandaloneRepoEntry};
use capisco::registry::{RegisterError, RegistryError, RepoDb};
use capisco::cli::{CliRepoKind, RepoSpec};

const ROOT: &str = "/data/overlay_repos";

fn name(s: &str) -> RepoName {
    RepoName::parse(s).ok().unwrap()
}

fn facts(first_exists: bool, second_exists: bool, same_file: bool) -> PathFacts {
    PathFacts { first_exists, second_exists, same_file }
}

fn register_standalone(db: &mut RepoDb, n: &str, path: &str, f: Vec<PathFacts>) -> Result<(), RegisterError<()>> {
    db.register_new(name(n), RepoEntry::standalone(path.to_string(), None), ROOT, &f, Ok(()))
}

fn conflicts_for(db: &RepoDb, n: &str, path: &str, f: Vec<PathFacts>) -> Vec<RepoConflictCheck> {
    db.find_conflicts(&name(n), &path.to_string(), ROOT, &f)
}

#[test]
fn case_insensitive_name_is_a_normalized_match() {
    let mut db = RepoDb::empty();
    register_standalone(&mut db, "foo", "/home/u/foo", vec![]).ok().unwrap();
    let cs = conflicts_for(&db, "Foo", "/home/u/other", vec![facts(true, true, false)]);
    assert_eq!(cs.len(), 1);
    assert_eq!(cs[0].found_name.as_str(), "foo");
    assert!(matches!(
        cs[0].name_eq.outcome,
        NormalizedEqOutcome::MatchAfterNormalization { reason: NormalizedRepoNameEq::CaseInsensitiveMatch }
    ));
    assert!(matches!(cs[0].entry_match.outcome, NormalizedEqOutcome::NotAMatch));
}

#[test]
fn symlinked_path_is_a_normalized_match() {
    let mut db = RepoDb::empty();
    register_standalone(&mut db, "real", "/home/u/real", vec![]).ok().unwrap();
    let cs = conflicts_for(&db, "link", "/home/u/link", vec![facts(true, true, true)]);
    assert_eq!(cs.len(), 1);
    assert!(matches!(cs[0].name_eq.outcome, NormalizedEqOutcome::NotAMatch));
    assert!(matches!(
        cs[0].entry_match.outcome,
        NormalizedEqOutcome::MatchAfterNormalization { reason: NormalizedRepoPathEq::CanonicalizedPathsEqual }
    ));
    assert_eq!(cs[0].entry_match.found.as_str(), "/home/u/real");
}

#[test]
fn registering_twice_is_an_exact_conflict() {
    let mut db = RepoDb::empty();
    register_standalone(&mut db, "dotfiles", "/tmp/x", vec![]).ok().unwrap();
    let again = register_standalone(&mut db, "dotfiles", "/tmp/x", vec![facts(true, true, true)]);
    match again {
        Err(RegisterError::Conflict(cs)) => {
            assert_eq!(cs.len(), 1);
            assert!(matches!(cs[0].name_eq.outcome, NormalizedEqOutcome::ExactMatch));
            assert!(matches!(cs[0].entry_match.outcome, NormalizedEqOutcome::ExactMatch));
        }
        _ => panic!("expected a conflict"),
    }
    assert_eq!(db.len(), 1);
}

#[test]
fn unrelated_entry_does_not_conflict() {
    let mut db = RepoDb::empty();
    register_standalone(&mut db, "a", "/p/a", vec![]).ok().unwrap();
    let cs = conflicts_for(&db, "b", "/p/b", vec![facts(true, true, false)]);
    assert_eq!(cs.len(), 0);
}

#[test]
fn missing_standalone_path_is_not_compared() {
    let mut db = RepoDb::empty();
    register_standalone(&mut db, "a", "/p/a", vec![]).ok().unwrap();
    let cs = conflicts_for(&db, "b", "/p/a", vec![facts(false, false, false)]);
    assert_eq!(cs.len(), 0);
}

#[test]
fn missing_overlay_path_is_compared_literally() {
    let mut db = RepoDb::empty();
    db.register_new(name("home"), RepoEntry::overlay(), ROOT, &vec![], Ok::<(), ()>(())).ok().unwrap();
    let cs = conflicts_for(&db, "other", "/data/overlay_repos/home", vec![facts(false, false, false)]);
    assert_eq!(cs.len(), 1);
    assert!(matches!(cs[0].entry_match.outcome, NormalizedEqOutcome::ExactMatch));
    assert!(matches!(cs[0].name_eq.outcome, NormalizedEqOutcome::NotAMatch));
}

#[test]
fn one_side_existing_is_not_a_match() {
    let mut db = RepoDb::empty();
    db.register_new(name("home"), RepoEntry::overlay(), ROOT, &vec![], Ok::<(), ()>(())).ok().unwrap();
    let cs = conflicts_for(&db, "other", "/data/overlay_repos/home", vec![facts(true, false, false)]);
    assert_eq!(cs.len(), 0);
}

#[test]
fn every_conflicting_entry_is_reported() {
    let mut db = RepoDb::empty();
    register_standalone(&mut db, "a", "/p/a", vec![]).ok().unwrap();
    register_standalone(&mut db, "b", "/p/b", vec![facts(true, true, false)]).ok().unwrap();
    register_standalone(&mut db, "c", "/p/c", vec![facts(true, true, false), facts(true, true, false)]).ok().unwrap();
    let cs = conflicts_for(
        &db,
        "A",
        "/p/c",
        vec![facts(true, true, false), facts(true, true, false), facts(true, true, true)],
    );
    assert_eq!(cs.len(), 2);
    assert_eq!(cs[0].found_name.as_str(), "a");
    assert_eq!(cs[1].found_name.as_str(), "c");
}

#[test]
fn backend_failure_leaves_registry_unchanged() {
    let mut db = RepoDb::empty();
    let r = db.register_new(name("x"), RepoEntry::standalone("/p/x".to_string(), None), ROOT, &vec![], Err::<(), &str>("clone failed"));
    assert!(matches!(r, Err(RegisterError::Backend("clone failed"))));
    assert_eq!(db.len(), 0);
    assert!(!db.needs_persist());
}

#[test]
fn entries_are_kept_in_name_order() {
    let mut db = RepoDb::empty();
    register_standalone(&mut db, "m", "/p/m", vec![]).ok().unwrap();
    register_standalone(&mut db, "b", "/p/b", vec![facts(true, true, false)]).ok().unwrap();
    register_standalone(&mut db, "x", "/p/x", vec![facts(true, true, false), facts(true, true, false)]).ok().unwrap();
    let names: Vec<&str> = db.iter().iter().map(|(n, _)| n.as_str()).collect();
    assert_eq!(names, vec!["b", "m", "x"]);
}

#[test]
fn removing_absent_name_changes_nothing() {
    let mut db = RepoDb::empty();
    register_standalone(&mut db, "a", "/p/a", vec![]).ok().unwrap();
    db.flush(Ok::<(), ()>(())).unwrap();
    let r = db.remove(&name("zzz"));
    assert!(matches!(r, Err(RegistryError::NotFound)));
    assert_eq!(db.len(), 1);
    assert!(!db.needs_persist());
}

#[test]
fn removing_present_name_returns_entry() {
    let mut db = RepoDb::empty();
    register_standalone(&mut db, "a", "/p/a", vec![]).ok().unwrap();
    db.flush(Ok::<(), ()>(())).unwrap();
    let e = db.remove(&name("a")).ok().unwrap();
    assert_eq!(e.standalone_path(), Some("/p/a"));
    assert_eq!(db.len(), 0);
    assert!(db.needs_persist());
}

#[test]
fn deregister_rejects_overlay() {
    let mut db = RepoDb::empty();
    db.register_new(name("home"), RepoEntry::overlay(), ROOT, &vec![], Ok::<(), ()>(())).ok().unwrap();
    assert!(matches!(db.deregister_standalone(&name("home")), Err(RegistryError::NotStandalone)));
    assert!(matches!(db.deregister_standalone(&name("nope")), Err(RegistryError::NotFound)));
    assert_eq!(db.len(), 1);
}

#[test]
fn flush_writes_at_most_once() {
    let mut db = RepoDb::empty();
    assert!(db.to_persist().is_none());
    register_standalone(&mut db, "a", "/p/a", vec![]).ok().unwrap();
    let doc = db.to_persist();
    assert!(doc.is_some());
    db.flush(Ok::<(), ()>(())).unwrap();
    assert!(db.to_persist().is_none());
    assert!(db.to_persist().is_none());
}

#[test]
fn persisted_document_holds_only_standalone_entries() {
    let mut db = RepoDb::empty();
    let info = AppInfo::new("org".to_string(), "Example".to_string(), "app".to_string());
    db.register_new(name("s"), RepoEntry::standalone("/p/s".to_string(), Some(info)), ROOT, &vec![], Ok::<(), ()>(())).ok().unwrap();
    db.register_new(name("o"), RepoEntry::overlay(), ROOT, &vec![facts(false, true, false)], Ok::<(), ()>(())).ok().unwrap();
    let doc = db.to_persist().unwrap();
    assert_eq!(doc.standalone_repos.len(), 1);
    assert_eq!(doc.standalone_repos[0].0.as_str(), "s");
    assert_eq!(doc.standalone_repos[0].1.path, "/p/s");
    let a = doc.standalone_repos[0].1.app_info.as_ref().unwrap();
    assert_eq!(a.organization, "Example");
}

#[test]
fn reloading_written_document_reproduces_entries() {
    let mut db = RepoDb::empty();
    let info = AppInfo::new("q".to_string(), "o".to_string(), "a".to_string());
    db.register_new(name("s1"), RepoEntry::standalone("/p/s1".to_string(), Some(info)), ROOT, &vec![], Ok::<(), ()>(())).ok().unwrap();
    register_standalone(&mut db, "s2", "/p/s2", vec![facts(true, true, false)]).ok().unwrap();
    let doc = db.to_persist().unwrap();
    let (again, warnings) = RepoDb::new(doc, vec![]).ok().unwrap();
    assert_eq!(warnings.len(), 0);
    assert_eq!(again.len(), 2);
    assert!(!again.needs_persist());
    let e1 = again.get_by_name(&name("s1")).ok().unwrap();
    assert_eq!(e1.standalone_path(), Some("/p/s1"));
    let e2 = again.get_by_name(&name("s2")).ok().unwrap();
    assert_eq!(e2.standalone_path(), Some("/p/s2"));
}

#[test]
fn end_to_end_standalone_register_flush_reload() {
    let mut db = RepoDb::empty();
    register_standalone(&mut db, "dotfiles", "/tmp/x", vec![]).ok().unwrap();
    assert_eq!(db.len(), 1);
    let doc = db.to_persist().unwrap();
    db.flush(Ok::<(), ()>(())).unwrap();
    assert_eq!(doc.standalone_repos.len(), 1);
    assert_eq!(doc.standalone_repos[0].0.as_str(), "dotfiles");
    assert_eq!(doc.standalone_repos[0].1.path, "/tmp/x");
    let (again, _) = RepoDb::new(doc, vec![]).ok().unwrap();
    assert_eq!(again.len(), 1);
    let e = again.get_by_name(&name("dotfiles")).ok().unwrap();
    assert_eq!(e.standalone_path(), Some("/tmp/x"));
    assert_eq!(e.kind(), CliRepoKind::Standalone);
}

#[test]
fn end_to_end_overlay_create_and_remove_bare_repo() {
    let mut db = RepoDb::empty();
    db.register_new(name("home"), RepoEntry::overlay(), ROOT, &vec![], Ok::<(), ()>(())).ok().unwrap();
    let e = db.get_by_name(&name("home")).ok().unwrap();
    assert_eq!(e.kind(), CliRepoKind::Overlay);
    assert_eq!(e.path(ROOT, &name("home")), "/data/overlay_repos/home");
    assert_eq!(e.work_tree_path("/home/u"), "/home/u");
    let to_delete = db.remove_overlay_bare_repo(ROOT, &name("home")).ok().unwrap();
    assert_eq!(to_delete, "/data/overlay_repos/home");
    assert_eq!(db.len(), 0);
    assert!(db.get_by_name_opt(&name("home")).is_none());
}

#[test]
fn remove_overlay_bare_repo_rejects_standalone() {
    let mut db = RepoDb::empty();
    register_standalone(&mut db, "s", "/p/s", vec![]).ok().unwrap();
    assert!(matches!(db.remove_overlay_bare_repo(ROOT, &name("s")), Err(RegistryError::NotOverlay)));
    assert_eq!(db.len(), 1);
}

#[test]
fn get_by_path_finds_overlay_and_standalone() {
    let mut db = RepoDb::empty();
    register_standalone(&mut db, "s", "/p/s", vec![]).ok().unwrap();
    db.register_new(name("o"), RepoEntry::overlay(), ROOT, &vec![facts(false, true, false)], Ok::<(), ()>(())).ok().unwrap();
    let (n, _) = db.get_by_path(ROOT, "/data/overlay_repos/o").ok().unwrap();
    assert_eq!(n.as_str(), "o");
    let (n, _) = db.get_by_path(ROOT, "/p/s").ok().unwrap();
    assert_eq!(n.as_str(), "s");
    assert!(matches!(db.get_by_path(ROOT, "/p/none"), Err(RegistryError::PathNotFound)));
}

fn doc_with(entries: Vec<(&str, &str)>) -> StandaloneRepoDb {
    StandaloneRepoDb {
        standalone_repos: entries
            .into_iter()
            .map(|(n, p)| (name(n), StandaloneRepoEntry { path: p.to_string(), app_info: None }))
            .collect(),
    }
}

fn item(n: &str, is_dir: bool) -> OverlayDirEntry {
    OverlayDirEntry { file_name: Some(n.to_string()), is_dir }
}

#[test]
fn load_skips_bad_overlay_items_with_warnings() {
    let doc = doc_with(vec![("s", "/p/s")]);
    let items = vec![
        item("home", true),
        item("not a name", true),
        item("file.txt", false),
        OverlayDirEntry { file_name: None, is_dir: true },
    ];
    let (db, warnings) = RepoDb::new(doc, items).ok().unwrap();
    assert_eq!(db.len(), 2);
    assert_eq!(db.get_by_name(&name("home")).ok().unwrap().kind(), CliRepoKind::Overlay);
    assert_eq!(warnings.len(), 3);
    assert!(matches!(&warnings[0], LoadWarning::InvalidName { file_name, .. } if file_name == "not a name"));
    assert!(matches!(&warnings[1], LoadWarning::NotADirectory { name } if name.as_str() == "file.txt"));
    assert!(matches!(&warnings[2], LoadWarning::NotUtf8));
}

#[test]
fn load_fails_when_overlay_repeats_standalone_name() {
    let doc = doc_with(vec![("dup", "/p/dup")]);
    let r = RepoDb::new(doc, vec![item("dup", true)]);
    assert!(matches!(r, Err(LoadError::NameConflict { name }) if name.as_str() == "dup"));
}

#[test]
fn load_of_empty_document_is_empty() {
    let (db, w) = RepoDb::new(StandaloneRepoDb::empty(), vec![]).ok().unwrap();
    assert_eq!(db.len(), 0);
    assert_eq!(w.len(), 0);
    assert!(!db.needs_persist());
}

#[test]
fn list_matching_filters_by_kind() {
    let mut db = RepoDb::empty();
    register_standalone(&mut db, "s", "/p/s", vec![]).ok().unwrap();
    db.register_new(name("o"), RepoEntry::overlay(), ROOT, &vec![facts(false, true, false)], Ok::<(), ()>(())).ok().unwrap();
    assert_eq!(db.list_matching(&vec![RepoSpec::All], None), vec![0, 1]);
    assert_eq!(db.list_matching(&vec![RepoSpec::Kind(CliRepoKind::Overlay)], None), vec![0]);
    assert_eq!(db.list_matching(&vec![RepoSpec::All], Some(CliRepoKind::Standalone)), vec![1]);
    assert_eq!(
        db.list_matching(&vec![RepoSpec::Kind(CliRepoKind::Overlay), RepoSpec::Kind(CliRepoKind::Standalone)], None),
        Vec::<usize>::new()
    );
}

#[test]
fn short_descriptions() {
    assert_eq!(RepoEntry::overlay().short_desc(), "overlay repo");
    assert_eq!(RepoEntry::standalone("/p/s".to_string(), None).short_desc(), "standalone repo at /p/s");
}
