use capisco::cli::{BaseNameError, CliNewRepoName, CliRepoKind, CommandAndArgs, CommandError, InvalidRepoSpecError, ListFormat, RepoSpec};
use capisco::conflict::{ConflictKind, NormalizedRepoNameEq, RepoConflictCheck, RepoFieldEq};
use capisco::entry::{join_path, overlay_excludes_file_path};
use capisco::name::{InvalidRepoNameError, RepoName};
use capisco::normalization::{NormalizedEqOutcome, Normalization};

#[test]
fn valid_name_round_trips() {
    for s in ["dotfiles", "a.b-c", "ABC123", "", &"x".repeat(100)] {
        let n = RepoName::parse(s).ok().unwrap();
        let again = RepoName::parse(&n.to_string()).ok().unwrap();
        assert!(again == n);
        assert_eq!(again.as_str(), s);
    }
}

#[test]
fn name_too_big_reports_length() {
    let s = "a".repeat(101);
    assert_eq!(RepoName::validate(&s), Err(InvalidRepoNameError::TooBig { actual: 101 }));
    let s = "b".repeat(250);
    assert_eq!(RepoName::validate(&s), Err(InvalidRepoNameError::TooBig { actual: 250 }));
}

#[test]
fn name_invalid_char_reports_offset() {
    assert_eq!(
        RepoName::validate("ab/c"),
        Err(InvalidRepoNameError::InvalidChar { character: '/', at_byte: 2 })
    );
    assert_eq!(
        RepoName::validate("é"),
        Err(InvalidRepoNameError::InvalidChar { character: 'é', at_byte: 0 })
    );
    assert_eq!(
        RepoName::validate("has space"),
        Err(InvalidRepoNameError::InvalidChar { character: ' ', at_byte: 3 })
    );
}

#[test]
fn invalid_char_before_limit_wins_over_length() {
    let s = format!("ab_{}", "c".repeat(200));
    assert_eq!(
        RepoName::validate(&s),
        Err(InvalidRepoNameError::InvalidChar { character: '_', at_byte: 2 })
    );
    let s = format!("{}_", "c".repeat(100));
    assert_eq!(RepoName::validate(&s), Err(InvalidRepoNameError::TooBig { actual: 101 }));
}

#[test]
fn name_from_str() {
    let n: RepoName = "abc".parse().ok().unwrap();
    assert_eq!(n.as_single_path_segment(), "abc");
}

#[test]
fn name_comparison_is_case_insensitive_after_exact() {
    let a = RepoName::parse("Dotfiles").ok().unwrap();
    let b = RepoName::parse("dotFILES").ok().unwrap();
    let c = RepoName::parse("dotfile").ok().unwrap();
    assert!(matches!(NormalizedRepoNameEq::normalized_eq(&a, &a, &()), NormalizedEqOutcome::ExactMatch));
    assert!(matches!(
        NormalizedRepoNameEq::normalized_eq(&a, &b, &()),
        NormalizedEqOutcome::MatchAfterNormalization { reason: NormalizedRepoNameEq::CaseInsensitiveMatch }
    ));
    assert!(matches!(NormalizedRepoNameEq::normalized_eq(&a, &c, &()), NormalizedEqOutcome::NotAMatch));
    let d = RepoName::parse("a-b").ok().unwrap();
    let e = RepoName::parse("a.b").ok().unwrap();
    assert!(matches!(NormalizedRepoNameEq::normalized_eq(&d, &e, &()), NormalizedEqOutcome::NotAMatch));
}

#[test]
fn matched_outcomes() {
    assert!(NormalizedEqOutcome::<()>::ExactMatch.matched());
    assert!(NormalizedEqOutcome::MatchAfterNormalization { reason: () }.matched());
    assert!(!NormalizedEqOutcome::<()>::NotAMatch.matched());
}

#[test]
fn repo_spec_parsing() {
    assert!(matches!(RepoSpec::parse("all"), Ok(RepoSpec::All)));
    assert!(matches!(RepoSpec::parse("kind:overlay"), Ok(RepoSpec::Kind(CliRepoKind::Overlay))));
    assert!(matches!(RepoSpec::parse("kind:standalone"), Ok(RepoSpec::Kind(CliRepoKind::Standalone))));
    assert!(matches!(RepoSpec::parse("bogus"), Err(InvalidRepoSpecError::Unrecognized { what }) if what == "bogus"));
    assert!(matches!(RepoSpec::parse("name:x"), Err(InvalidRepoSpecError::UnrecognizedType { what }) if what == "name"));
    assert!(matches!(RepoSpec::parse("kind:x:y"), Err(InvalidRepoSpecError::ParseRepoKind { source }) if source.what == "x:y"));
    assert!(matches!(RepoSpec::default(), RepoSpec::All));
}

#[test]
fn list_format_and_kind_parsing() {
    assert!(matches!(ListFormat::parse("flat"), Ok(ListFormat::Flat)));
    assert!(matches!(ListFormat::parse("group-by-kind"), Ok(ListFormat::GroupByKind)));
    assert!(matches!(ListFormat::parse("tree"), Err(e) if e.actual == "tree"));
    assert!(matches!(ListFormat::default(), ListFormat::Flat));
    assert!(matches!(CliRepoKind::parse("overlay"), Ok(CliRepoKind::Overlay)));
    assert!(matches!(CliRepoKind::parse("Overlay"), Err(e) if e.what == "Overlay"));
    assert_eq!(CliRepoKind::all(), vec![CliRepoKind::Standalone, CliRepoKind::Overlay]);
}

#[test]
fn explicit_new_name_is_kept() {
    let n = CliNewRepoName { name: Some(RepoName::parse("given").ok().unwrap()) };
    let r = n.unwrap_or_base_name("/some/where", "/cwd").ok().unwrap();
    assert_eq!(r.as_str(), "given");
    let n = CliNewRepoName { name: None };
    assert!(n.into_opt().is_none());
}

#[test]
fn base_name_of_relative_path_is_cleaned_under_cwd() {
    let n = CliNewRepoName { name: None };
    let r = n.unwrap_or_base_name("x/../proj", "/home/u").ok().unwrap();
    assert_eq!(r.as_str(), "proj");
    let n = CliNewRepoName { name: None };
    let r = n.unwrap_or_base_name(".", "/home/u/dots").ok().unwrap();
    assert_eq!(r.as_str(), "dots");
}

#[test]
fn base_name_of_absolute_path() {
    let n = CliNewRepoName { name: None };
    assert_eq!(n.unwrap_or_base_name("/tmp/x/", "/cwd").ok().unwrap().as_str(), "x");
    let n = CliNewRepoName { name: None };
    assert!(matches!(n.unwrap_or_base_name("/", "/cwd"), Err(BaseNameError::NoBaseName)));
    let n = CliNewRepoName { name: None };
    assert!(matches!(
        n.unwrap_or_base_name("/tmp/a b", "/cwd"),
        Err(BaseNameError::InvalidName(InvalidRepoNameError::InvalidChar { character: ' ', at_byte: 1 }))
    ));
}

#[test]
fn command_split() {
    let c = CommandAndArgs { cmd_and_args: vec!["git".to_string(), "status".to_string(), "-s".to_string()] };
    let (cmd, rest) = c.split_command().ok().unwrap();
    assert_eq!(cmd, "git");
    assert_eq!(rest, &["status".to_string(), "-s".to_string()]);
    let c = CommandAndArgs { cmd_and_args: vec![] };
    assert!(matches!(c.split_command(), Err(CommandError::CommandNotSpecified)));
}

#[test]
fn path_joining() {
    assert_eq!(join_path("/a", "b"), "/a/b");
    assert_eq!(join_path("/a/", "b"), "/a/b");
    assert_eq!(join_path("", "b"), "b");
    let n = RepoName::parse("home").ok().unwrap();
    assert_eq!(overlay_excludes_file_path("/home/u", &n), "/home/u/.gitignore.d/home");
}

#[test]
fn conflict_kind_wording() {
    let n = RepoName::parse("a").ok().unwrap();
    let mk = |name_o: NormalizedEqOutcome<NormalizedRepoNameEq>, path_o| RepoConflictCheck {
        found_name: n.clone(),
        name_eq: RepoFieldEq { found: n.clone(), outcome: name_o },
        entry_match: RepoFieldEq { found: "/p".to_string(), outcome: path_o },
    };
    assert_eq!(mk(NormalizedEqOutcome::ExactMatch, NormalizedEqOutcome::ExactMatch).conflict_kind(), ConflictKind::AlreadyAdded);
    assert_eq!(mk(NormalizedEqOutcome::ExactMatch, NormalizedEqOutcome::NotAMatch).conflict_kind(), ConflictKind::NameTaken);
    assert_eq!(mk(NormalizedEqOutcome::NotAMatch, NormalizedEqOutcome::ExactMatch).conflict_kind(), ConflictKind::PathTaken);
}
