use cign::dir::{expand_dir, failing_dirs, get_expanded_dirs, keep_checked, CheckedDir};
use cign::error::Failure;
use cign::git::{GitCheckResult, RepoState};
use cign::policy::{apply_policy, ends_batch, Step};

fn strings(items: &[&str]) -> Vec<String> {
    items.iter().map(|s| s.to_string()).collect()
}

fn home() -> String {
    shellexpand::tilde("~").into_owned()
}

fn found(uncommitted: usize) -> GitCheckResult {
    GitCheckResult {
        state: RepoState::Clean,
        uncommitted_count: uncommitted,
        commits_ahead: 0,
        commits_behind: 0,
    }
}

fn checked(dir: &str, outcome: Result<GitCheckResult, Failure>) -> CheckedDir {
    CheckedDir { dir: dir.to_string(), outcome }
}

const UNSET: &str = "$CIGN_TEST_VARIABLE_THAT_IS_NEVER_SET/x";

#[test]
fn literal_paths_stay_as_they_are() {
    let dirs = strings(&["/srv/a", "relative/b", "", "/with space/c", "/a~b"]);
    assert_eq!(get_expanded_dirs(&dirs, false), Ok(dirs.clone()));
    assert_eq!(get_expanded_dirs(&dirs, true), Ok(dirs.clone()));
}

#[test]
fn the_home_shorthand_is_expanded() {
    assert_ne!(home(), "~");
    assert_eq!(expand_dir("~"), Ok(home()));
    assert_eq!(expand_dir("~/valid1"), Ok(format!("{}/valid1", home())));
}

#[test]
fn an_unexpandable_path_is_skipped() {
    let dirs = strings(&["~/valid1", UNSET, "~/valid2"]);
    assert_eq!(
        get_expanded_dirs(&dirs, false),
        Ok(vec![format!("{}/valid1", home()), format!("{}/valid2", home())])
    );
}

#[test]
fn an_unexpandable_path_fails_the_batch() {
    let dirs = strings(&["~/valid1", UNSET, "~/valid2"]);
    match get_expanded_dirs(&dirs, true) {
        Err(Failure::Expansion { dir, detail }) => {
            assert_eq!(dir, UNSET);
            assert!(detail.contains("CIGN_TEST_VARIABLE_THAT_IS_NEVER_SET"));
        }
        other => panic!("expected a failed expansion, got {:?}", other),
    }
}

#[test]
fn only_one_failure_leaves_the_rest() {
    let dirs = strings(&["/a", "/b", UNSET, "/c"]);
    assert_eq!(get_expanded_dirs(&dirs, false), Ok(strings(&["/a", "/b", "/c"])));
    assert_eq!(get_expanded_dirs(&strings(&[]), true), Ok(vec![]));
}

#[test]
fn expansion_failure_names_the_path() {
    match expand_dir(UNSET) {
        Err(failure) => {
            assert!(failure.is_skippable());
            assert!(failure.message().starts_with(&format!("{}: Could not expand dir: ", UNSET)));
        }
        Ok(path) => panic!("expanded to {}", path),
    }
}

#[test]
fn the_policy_on_one_entry() {
    assert_eq!(matches!(apply_policy(Ok::<u8, Failure>(7), true), Step::Keep(7)), true);
    assert_eq!(matches!(apply_policy(Ok::<u8, Failure>(7), false), Step::Keep(7)), true);
    let skippable = || Err::<u8, Failure>(Failure::UnresolvedHead);
    assert!(matches!(apply_policy(skippable(), false), Step::Skip(Failure::UnresolvedHead)));
    assert!(matches!(apply_policy(skippable(), true), Step::Abort(Failure::UnresolvedHead)));
    let refused = || Err::<u8, Failure>(Failure::NotConfirmed);
    assert!(matches!(apply_policy(refused(), false), Step::Abort(Failure::NotConfirmed)));
    assert!(matches!(apply_policy(refused(), true), Step::Abort(Failure::NotConfirmed)));
}

#[test]
fn failing_directories_are_the_dirty_ones() {
    let entries = vec![
        checked("/a", Ok(found(0))),
        checked("/b", Ok(found(2))),
        checked("/c", Ok(found(0))),
        checked("/d", Ok(found(1))),
    ];
    assert_eq!(failing_dirs(entries, false), Ok(strings(&["/b", "/d"])));
    assert_eq!(failing_dirs(vec![], true), Ok(vec![]));
}

#[test]
fn a_failed_check_is_skipped_or_fails_the_batch() {
    let entries = || {
        vec![
            checked("/a", Ok(found(3))),
            checked("/b", Err(Failure::UnnamedBranch)),
            checked("/c", Err(Failure::UnresolvedHead)),
            checked("/d", Ok(found(1))),
        ]
    };
    assert_eq!(failing_dirs(entries(), false), Ok(strings(&["/a", "/d"])));
    assert_eq!(failing_dirs(entries(), true), Err(Failure::UnnamedBranch));
}

#[test]
fn what_may_not_be_passed_over_always_fails_the_batch() {
    let entries = vec![
        checked("/a", Ok(found(3))),
        checked("/b", Err(Failure::Persistence { detail: "disk".to_string() })),
    ];
    assert_eq!(
        failing_dirs(entries, false),
        Err(Failure::Persistence { detail: "disk".to_string() })
    );
}

#[test]
fn checks_that_came_through_are_kept_with_their_results() {
    let entries = vec![
        checked("/a", Ok(found(0))),
        checked("/b", Err(Failure::UnnamedBranch)),
        checked("/c", Ok(found(2))),
    ];
    assert_eq!(
        keep_checked(entries, false),
        Ok(vec![("/a".to_string(), found(0)), ("/c".to_string(), found(2))])
    );
    let entries = vec![checked("/a", Ok(found(0))), checked("/b", Err(Failure::UnnamedBranch))];
    assert_eq!(keep_checked(entries, true), Err(Failure::UnnamedBranch));
    assert_eq!(keep_checked(vec![], true), Ok(vec![]));
}

#[test]
fn when_a_failure_ends_the_batch() {
    assert!(ends_batch(&Failure::UnresolvedHead, true));
    assert!(!ends_batch(&Failure::UnresolvedHead, false));
    assert!(ends_batch(&Failure::NotConfirmed, true));
    assert!(ends_batch(&Failure::NotConfirmed, false));
}

#[test]
fn a_path_without_a_variable_always_expands() {
    assert!(expand_dir("~").is_ok());
    assert!(expand_dir("~nobody/x").is_ok());
    assert!(expand_dir("plain").is_ok());
}
