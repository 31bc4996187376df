use cign::error::Failure;
use cign::git::{evaluate, GitCheckResult, HeadProbe, RepoProbe, RepoState};

fn probe(state: RepoState, statuses: Result<usize, String>, head: HeadProbe) -> RepoProbe {
    RepoProbe { state, statuses, head }
}

fn found(state: RepoState, uncommitted: usize, ahead: usize, behind: usize) -> GitCheckResult {
    GitCheckResult {
        state,
        uncommitted_count: uncommitted,
        commits_ahead: ahead,
        commits_behind: behind,
    }
}

#[test]
fn tracking_branch_reports_its_distance() {
    let r = evaluate(probe(
        RepoState::Clean,
        Ok(2),
        HeadProbe::Tracking { ahead: 0, behind: 1 },
    ));
    assert_eq!(r, Ok(found(RepoState::Clean, 2, 0, 1)));
}

#[test]
fn detached_head_is_neither_ahead_nor_behind() {
    let r = evaluate(probe(RepoState::Clean, Ok(0), HeadProbe::Detached)).unwrap();
    assert_eq!((r.commits_ahead, r.commits_behind), (0, 0));
    assert!(r.is_all_good());
    let r = evaluate(probe(RepoState::Bisect, Ok(5), HeadProbe::Detached));
    assert_eq!(r, Ok(found(RepoState::Bisect, 5, 0, 0)));
}

#[test]
fn branch_without_upstream_is_no_error() {
    let r = evaluate(probe(RepoState::Clean, Ok(3), HeadProbe::NoUpstream));
    assert_eq!(r, Ok(found(RepoState::Clean, 3, 0, 0)));
}

#[test]
fn repository_without_commits_keeps_its_count() {
    let r = evaluate(probe(RepoState::Clean, Ok(4), HeadProbe::Unborn));
    assert_eq!(r, Ok(found(RepoState::Clean, 4, 0, 0)));
    assert!(!r.unwrap().is_all_good());
    let r = evaluate(probe(RepoState::Merge, Ok(4), HeadProbe::Unborn));
    assert_eq!(r, Ok(found(RepoState::Merge, 4, 0, 0)));
    let r = evaluate(probe(RepoState::Clean, Ok(0), HeadProbe::Unborn));
    assert_eq!(r, Ok(found(RepoState::Clean, 0, 0, 0)));
    assert!(r.unwrap().is_all_good());
}

#[test]
fn detached_head_fails_only_with_the_status_list() {
    let r = evaluate(probe(RepoState::Clean, Err("no index".to_string()), HeadProbe::Detached));
    assert_eq!(r, Err(Failure::Query { detail: "no index".to_string() }));
}

#[test]
fn unreadable_statuses_fail_first() {
    let r = evaluate(probe(
        RepoState::Clean,
        Err("index is corrupt".to_string()),
        HeadProbe::NoTarget,
    ));
    assert_eq!(r, Err(Failure::Query { detail: "index is corrupt".to_string() }));
}

#[test]
fn each_broken_reading_has_its_failure() {
    let cases = vec![
        (
            HeadProbe::Dangling { detail: "loop".to_string() },
            Failure::Query { detail: "loop".to_string() },
        ),
        (HeadProbe::NoTarget, Failure::UnresolvedHead),
        (HeadProbe::NoName, Failure::UnnamedBranch),
        (HeadProbe::UndecodableUpstream, Failure::UndecodableUpstream),
        (
            HeadProbe::UpstreamUnresolved { detail: "gone".to_string() },
            Failure::Query { detail: "gone".to_string() },
        ),
        (
            HeadProbe::GraphFailed { detail: "no such commit".to_string() },
            Failure::Query { detail: "no such commit".to_string() },
        ),
    ];
    for (head, failure) in cases {
        assert_eq!(evaluate(probe(RepoState::Clean, Ok(1), head)), Err(failure));
    }
}

#[test]
fn same_reading_gives_the_same_result() {
    let first = evaluate(probe(
        RepoState::Rebase,
        Ok(7),
        HeadProbe::Tracking { ahead: 2, behind: 9 },
    ));
    let second = evaluate(probe(
        RepoState::Rebase,
        Ok(7),
        HeadProbe::Tracking { ahead: 2, behind: 9 },
    ));
    assert_eq!(first, second);
    assert_eq!(first.unwrap().describe(), second.unwrap().describe());
}

#[test]
fn failures_tell_what_went_wrong() {
    assert_eq!(Failure::UnresolvedHead.message(), "Failed to resolve HEAD ref");
    assert_eq!(Failure::UnnamedBranch.message(), "Failed to get HEAD branch name");
    assert_eq!(
        Failure::UndecodableUpstream.message(),
        "Failed to decode remote branch name to UTF-8"
    );
    assert_eq!(Failure::NotConfirmed.message(), "Deletion not confirmed, bailing out.");
    assert_eq!(
        Failure::Expansion { dir: "$X/y".to_string(), detail: "unset".to_string() }.message(),
        "$X/y: Could not expand dir: unset"
    );
    assert_eq!(
        Failure::Discovery { dir: "/tmp/x".to_string(), detail: "none".to_string() }.message(),
        "/tmp/x: Could not open repo: none"
    );
    assert_eq!(
        Failure::Unreadable { dir: "/root".to_string(), detail: "denied".to_string() }.message(),
        "/root: Could not read directory: denied"
    );
    assert_eq!(Failure::Query { detail: "bad object".to_string() }.message(), "bad object");
    assert_eq!(
        Failure::NotADirectory { dir: "/etc/passwd".to_string() }.message(),
        "/etc/passwd is not a directory"
    );
    assert_eq!(Failure::NotInConfig { dir: "/a".to_string() }.message(), "/a not in config");
    assert_eq!(Failure::Subprocess { detail: "nul".to_string() }.message(), "nul");
    assert_eq!(Failure::Interaction { detail: "no terminal".to_string() }.message(), "no terminal");
    assert_eq!(Failure::Persistence { detail: "disk".to_string() }.message(), "disk");
}

#[test]
fn only_some_failures_are_passed_over() {
    assert!(Failure::Expansion { dir: String::new(), detail: String::new() }.is_skippable());
    assert!(Failure::Discovery { dir: String::new(), detail: String::new() }.is_skippable());
    assert!(Failure::Unreadable { dir: String::new(), detail: String::new() }.is_skippable());
    assert!(Failure::Query { detail: String::new() }.is_skippable());
    assert!(Failure::UnresolvedHead.is_skippable());
    assert!(Failure::UnnamedBranch.is_skippable());
    assert!(Failure::UndecodableUpstream.is_skippable());
    assert!(!Failure::NotConfirmed.is_skippable());
    assert!(!Failure::Persistence { detail: String::new() }.is_skippable());
    assert!(!Failure::Subprocess { detail: String::new() }.is_skippable());
    assert!(!Failure::Interaction { detail: String::new() }.is_skippable());
    assert!(!Failure::NotADirectory { dir: String::new() }.is_skippable());
    assert!(!Failure::NotInConfig { dir: String::new() }.is_skippable());
}
