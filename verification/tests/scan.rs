use cign::config::Config;
use cign::custom::CustomEntry;
use cign::git::{CheckResult, GitCheckResult, RepoState};
use cign::dir::CheckedDir;
use cign::error::Failure;
use cign::scan::{
    custom_entry, scan_entries, scan_report, shown_path, AllClear, ProblemRow, ScanEntry,
};

fn entry(path: &str, uncommitted: usize, ahead: usize, behind: usize) -> ScanEntry {
    ScanEntry {
        path: path.to_string(),
        result: CheckResult::Repository(GitCheckResult {
            state: RepoState::Clean,
            uncommitted_count: uncommitted,
            commits_ahead: ahead,
            commits_behind: behind,
        }),
    }
}

fn notes() -> CustomEntry {
    CustomEntry {
        name: "notes".to_string(),
        path: "~/notes".to_string(),
        check_cmd: "test -z \"$(ls inbox)\"".to_string(),
        refresh_cmd: "true".to_string(),
    }
}

fn config(enable_chad: Option<&str>) -> Config {
    Config::from_parts(
        "git remote update".to_string(),
        enable_chad.map(|s| s.to_string()),
        vec![],
        vec![],
    )
    .unwrap()
}

#[test]
fn scan_of_a_clean_and_a_dirty_repository() {
    let entries = vec![entry("/srv/A", 0, 0, 0), entry("/srv/B", 2, 0, 1)];
    let report = scan_report(&config(None), &entries, false);
    assert_eq!(report.problems.len(), 1);
    let row = &report.problems[0];
    assert_eq!(row.path, "/srv/B");
    assert!(row.problem.contains("2 uncommitted change(s)"));
    assert!(row.problem.contains("1 commit(s) behind"));
    assert_eq!(row.problem, "2 uncommitted change(s) - 1 commit(s) behind");
    assert!(report.problems.iter().all(|row| row.path != "/srv/A"));
    assert_eq!(report.clean, None);
    assert_eq!(report.exit_status(), 1);
}

#[test]
fn scan_of_clean_repositories() {
    let entries = vec![entry("/srv/A", 0, 0, 0), entry("/srv/B", 0, 0, 0)];
    let report = scan_report(&config(None), &entries, false);
    assert!(report.problems.is_empty());
    assert_eq!(report.all_clear, AllClear::Plain);
    assert_eq!(report.exit_status(), 0);
    let nothing = scan_report(&config(None), &vec![], false);
    assert!(nothing.problems.is_empty());
    assert_eq!(nothing.exit_status(), 0);
}

#[test]
fn verbose_scan_lists_the_clean_ones() {
    let entries = vec![
        entry("/srv/A", 0, 0, 0),
        entry("/srv/B", 0, 4, 0),
        entry("/srv/C", 0, 0, 0),
    ];
    let report = scan_report(&config(None), &entries, true);
    assert_eq!(report.clean, Some(vec!["/srv/A".to_string(), "/srv/C".to_string()]));
    assert_eq!(
        report.problems,
        vec![ProblemRow { path: "/srv/B".to_string(), problem: "4 commit(s) ahead".to_string() }]
    );
    assert_eq!(report.exit_status(), 1);
}

#[test]
fn the_picture_is_shown_on_request_only() {
    let entries = vec![entry("/srv/A", 0, 0, 0)];
    assert_eq!(scan_report(&config(Some("Yes.")), &entries, false).all_clear, AllClear::Picture);
    assert_eq!(scan_report(&config(Some("yes")), &entries, false).all_clear, AllClear::Plain);
    assert_eq!(scan_report(&config(Some("")), &entries, false).all_clear, AllClear::Plain);
    assert_eq!(scan_report(&config(None), &entries, false).all_clear, AllClear::Plain);
}

#[test]
fn custom_entries_are_scanned_by_their_exit_status() {
    let passed = custom_entry(&notes(), 0);
    assert_eq!(
        passed,
        ScanEntry { path: "~/notes".to_string(), result: CheckResult::Custom { passed: true } }
    );
    let failed = custom_entry(&notes(), 1);
    assert_eq!(failed.result, CheckResult::Custom { passed: false });
    let report = scan_report(&config(None), &vec![passed, failed, entry("/srv/A", 0, 0, 0)], true);
    assert_eq!(
        report.problems,
        vec![ProblemRow { path: "~/notes".to_string(), problem: "check failed".to_string() }]
    );
    assert_eq!(report.clean, Some(vec!["~/notes".to_string(), "/srv/A".to_string()]));
    assert_eq!(report.exit_status(), 1);
}

#[test]
fn custom_results_are_described_like_the_others() {
    let passed = CheckResult::Custom { passed: true };
    let failed = CheckResult::Custom { passed: false };
    assert!(passed.is_all_good());
    assert!(!failed.is_all_good());
    assert_eq!(passed.describe(), vec!["all good".to_string()]);
    assert_eq!(failed.describe(), vec!["check failed".to_string()]);
}

#[test]
fn a_repository_is_shown_by_its_working_directory() {
    assert_eq!(shown_path(Some("/srv/a/".to_string()), "/srv/a/.git/".to_string()), "/srv/a/");
    assert_eq!(shown_path(None, "/srv/bare.git/".to_string()), "/srv/bare.git/");
}

fn checked(dir: &str, outcome: Result<GitCheckResult, Failure>) -> CheckedDir {
    CheckedDir { dir: dir.to_string(), outcome }
}

fn result(uncommitted: usize, ahead: usize, behind: usize) -> GitCheckResult {
    GitCheckResult {
        state: RepoState::Clean,
        uncommitted_count: uncommitted,
        commits_ahead: ahead,
        commits_behind: behind,
    }
}

#[test]
fn each_path_stands_with_its_own_result() {
    let entries = scan_entries(
        vec![checked("/srv/A", Ok(result(0, 0, 0))), checked("/srv/B", Ok(result(2, 0, 1)))],
        false,
    );
    assert_eq!(entries, Ok(vec![entry("/srv/A", 0, 0, 0), entry("/srv/B", 2, 0, 1)]));
    let entries = entries.unwrap();
    assert!(entries[0].result.is_all_good());
    assert_eq!(
        entries[1].result.describe(),
        vec!["2 uncommitted change(s)".to_string(), "1 commit(s) behind".to_string()]
    );
    let dirty: Vec<&ScanEntry> = entries.iter().filter(|e| !e.result.is_all_good()).collect();
    assert_eq!(dirty.len(), 1);
    assert_eq!(dirty[0].path, "/srv/B");
}

#[test]
fn a_check_that_failed_is_left_out_of_the_scan_or_ends_it() {
    let checks = || {
        vec![
            checked("/srv/A", Ok(result(1, 0, 0))),
            checked("/srv/B", Err(Failure::UnresolvedHead)),
            checked("/srv/C", Ok(result(0, 0, 0))),
        ]
    };
    assert_eq!(
        scan_entries(checks(), false),
        Ok(vec![entry("/srv/A", 1, 0, 0), entry("/srv/C", 0, 0, 0)])
    );
    assert_eq!(scan_entries(checks(), true), Err(Failure::UnresolvedHead));
    assert_eq!(scan_entries(vec![], true), Ok(vec![]));
}
