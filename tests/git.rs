use capisco::cli::CliRepoKind;
use capisco::git::{
    cmd_failure_err, cmd_failure_res, exit_code_of, parse_bare_flag, CommandFailure, GitCli,
    GitCliRepo, GitExistCheckFailure, GitFailure, GitRepoKind, OpenRepoOptions, RepoSource,
};
use capisco::lifecycle::{batch_outcome, BackendAction, NewOverlayOptions, NewStandaloneOptions, OverlayStep};
use capisco::entry::RepoEntry;
use capisco::name::RepoName;
use capisco::persist::document_is_blank;

fn strings(v: &[&str]) -> Vec<String> {
    v.iter().map(|s| s.to_string()).collect()
}

#[test]
fn probe_arguments() {
    assert_eq!(GitCli::exists_args("/r"), strings(&["-C", "/r", "rev-parse", "--is-bare-repository"]));
    assert_eq!(GitCli::init_args("/r", GitRepoKind::Normal), strings(&["init", "/r"]));
    assert_eq!(GitCli::init_args("/r", GitRepoKind::Bare), strings(&["init", "/r", "--bare"]));
    let src = RepoSource::new("https://example.com/d.git".to_string());
    assert_eq!(
        GitCli::clone_args("/r", &src, GitRepoKind::Bare),
        strings(&["clone", "https://example.com/d.git", "/r", "--bare"])
    );
    assert_eq!(GitCli::clone_args("/r", &src, GitRepoKind::Normal), strings(&["clone", "https://example.com/d.git", "/r"]));
}

#[test]
fn probe_reports_bare_and_normal() {
    let r = GitCli::interpret_exists("/r", GitRepoKind::Bare, Some(0), Some("true\n".to_string()), Some(String::new()));
    assert!(matches!(r, Ok(Ok(()))));
    let r = GitCli::interpret_exists("/r", GitRepoKind::Bare, Some(0), Some("  false \n".to_string()), Some(String::new()));
    assert!(matches!(
        r,
        Ok(Err(GitExistCheckFailure { expected: GitRepoKind::Bare, actual: Some(GitRepoKind::Normal) }))
    ));
}

#[test]
fn probe_reports_nothing_there() {
    let r = GitCli::interpret_exists(
        "/r",
        GitRepoKind::Normal,
        Some(128),
        Some(String::new()),
        Some("fatal: not a git repository (or any of the parent directories): .git\n".to_string()),
    );
    assert!(matches!(r, Ok(Err(GitExistCheckFailure { expected: GitRepoKind::Normal, actual: None }))));
}

#[test]
fn probe_failures() {
    let r = GitCli::interpret_exists("/r", GitRepoKind::Normal, Some(128), Some(String::new()), Some("fatal: other".to_string()));
    assert!(matches!(r, Err(e) if e.op == GitFailure::Tool(CommandFailure::ExitCode(128)) && e.path == "/r"));
    let r = GitCli::interpret_exists("/r", GitRepoKind::Normal, None, Some(String::new()), Some(String::new()));
    assert!(matches!(r, Err(e) if e.op == GitFailure::Tool(CommandFailure::Signal)));
    let r = GitCli::interpret_exists("/r", GitRepoKind::Normal, Some(0), Some("yes".to_string()), Some(String::new()));
    assert!(matches!(r, Err(e) if e.op == GitFailure::UnexpectedOutput));
    let r = GitCli::interpret_exists("/r", GitRepoKind::Normal, Some(0), None, Some(String::new()));
    assert!(matches!(r, Err(e) if e.op == GitFailure::Encoding));
    let r = GitCli::interpret_exists("/r", GitRepoKind::Normal, Some(0), Some("true".to_string()), None);
    assert!(matches!(r, Err(e) if e.op == GitFailure::Encoding));
}

#[test]
fn bare_flag_parsing() {
    assert_eq!(parse_bare_flag("true"), Some(GitRepoKind::Bare));
    assert_eq!(parse_bare_flag("false"), Some(GitRepoKind::Normal));
    assert_eq!(parse_bare_flag("true\n"), None);
}

#[test]
fn command_status_mapping() {
    assert_eq!(cmd_failure_err(Some(0)), None);
    assert_eq!(cmd_failure_err(Some(3)), Some(CommandFailure::ExitCode(3)));
    assert_eq!(cmd_failure_err(None), Some(CommandFailure::Signal));
    assert!(cmd_failure_res(Some(0)).is_ok());
    assert_eq!(cmd_failure_res(Some(1)), Err(CommandFailure::ExitCode(1)));
    assert_eq!(exit_code_of(Some(7)), 7);
    assert_eq!(exit_code_of(None), 201);
}

#[test]
fn repo_kind_mapping() {
    assert_eq!(GitRepoKind::from(CliRepoKind::Overlay), GitRepoKind::Bare);
    assert_eq!(GitRepoKind::from(CliRepoKind::Standalone), GitRepoKind::Normal);
}

#[test]
fn opening_binds_directories() {
    let opts = OpenRepoOptions::Normal { work_tree_path: "/w" };
    assert_eq!(GitCli::open_probe(&opts), ("/w", GitRepoKind::Normal));
    let h = GitCli::open_repo(opts, Ok(Ok(()))).ok().unwrap();
    assert_eq!(h.repo_path, "/w/.git");
    assert_eq!(h.work_tree_path, "/w");
    let opts = OpenRepoOptions::Bare { repo_path: "/d/home", work_tree_path: "/home/u" };
    assert_eq!(GitCli::open_probe(&opts), ("/d/home", GitRepoKind::Bare));
    let h = GitCli::open_repo(opts, Ok(Ok(()))).ok().unwrap();
    assert_eq!(
        h.env_bindings(),
        vec![
            ("GIT_WORK_TREE".to_string(), "/home/u".to_string()),
            ("GIT_DIR".to_string(), "/d/home".to_string())
        ]
    );
    let failed = GitExistCheckFailure { expected: GitRepoKind::Bare, actual: None };
    let opts = OpenRepoOptions::Bare { repo_path: "/d/x", work_tree_path: "/home/u" };
    let e = GitCli::open_repo(opts, Ok(Err(failed))).err().unwrap();
    assert_eq!(e.path, "/d/x");
}

#[test]
fn config_arguments() {
    assert_eq!(GitCliRepo::config_args("k", Some("v")), strings(&["config", "k", "v"]));
    assert_eq!(GitCliRepo::set_excludes_file_args(None), strings(&["config", "core.excludesFile", "--unset-all"]));
    assert_eq!(
        GitCliRepo::set_attributes_file_args(Some("/a")),
        strings(&["config", "core.attributesFile", "/a"])
    );
}

#[test]
fn standalone_actions() {
    assert!(NewStandaloneOptions::Init.creates_dir());
    assert!(!NewStandaloneOptions::Register.creates_dir());
    assert!(matches!(
        NewStandaloneOptions::Register.into_action("/p"),
        BackendAction::VerifyExists { path, kind: GitRepoKind::Normal } if path == "/p"
    ));
    let src = RepoSource::new("u".to_string());
    assert!(matches!(
        NewStandaloneOptions::Clone { source: src }.into_action("/p"),
        BackendAction::Clone { path, source, kind: GitRepoKind::Normal } if path == "/p" && source.as_str() == "u"
    ));
}

#[test]
fn overlay_actions_and_follow_up() {
    assert!(matches!(
        NewOverlayOptions::Init.into_action("/d/home"),
        BackendAction::Init { path, kind: GitRepoKind::Bare } if path == "/d/home"
    ));
    let name = RepoName::parse("home").ok().unwrap();
    let steps = NewOverlayOptions::Init.follow_up("/home/u", &name);
    assert_eq!(steps.len(), 1);
    assert!(matches!(&steps[0], OverlayStep::SetExcludesFile(p) if p == "/home/u/.gitignore.d/home"));
    let clone = NewOverlayOptions::Clone { source: RepoSource::new("u".to_string()), no_checkout: false };
    let steps = clone.follow_up("/home/u", &name);
    assert_eq!(steps.len(), 3);
    assert!(matches!(steps[0], OverlayStep::Reset));
    assert!(matches!(steps[1], OverlayStep::Restore));
    let clone = NewOverlayOptions::Clone { source: RepoSource::new("u".to_string()), no_checkout: true };
    let steps = clone.follow_up("/home/u", &name);
    assert_eq!(steps.len(), 2);
    assert!(matches!(steps[1], OverlayStep::SetExcludesFile(_)));
}

#[test]
fn batch_outcomes() {
    assert!(batch_outcome(&vec![false, false]).is_ok());
    assert!(batch_outcome(&vec![]).is_ok());
    let e = batch_outcome(&vec![false, true, true]).err().unwrap();
    assert_eq!(e.failed, 2);
    assert_eq!(e.total, 3);
}

#[test]
fn entries_open_by_kind() {
    let o = RepoEntry::overlay();
    assert!(matches!(
        o.open_options("/d/home", "/home/u"),
        OpenRepoOptions::Bare { repo_path: "/d/home", work_tree_path: "/home/u" }
    ));
    let s = RepoEntry::standalone("/p/s".to_string(), None);
    assert!(matches!(s.open_options("/p/s", "/home/u"), OpenRepoOptions::Normal { work_tree_path: "/p/s" }));
}

#[test]
fn blank_documents() {
    assert!(document_is_blank(""));
    assert!(document_is_blank(" \n\t "));
    assert!(!document_is_blank(" [standalone_repos]\n"));
}
