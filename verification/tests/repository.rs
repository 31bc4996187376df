use cign::command::handle_fix;
use cign::config::Config;
use cign::dir::{check_dir, get_failing_expanded_dirs};
use cign::error::Failure;
use cign::git::{
    check_repo, probe_head, probe_repo, CheckResult, GitCheckResult, HeadProbe, RepoState,
};
use cign::refresh::{handle_refresh, RefreshJob};
use cign::scan::{check_all_repos, open_repository, repository_path, scan_report};
use git2::{Oid, Repository, Signature};
use tempfile::{tempdir, NamedTempFile, TempDir};

fn found(uncommitted: usize, ahead: usize, behind: usize) -> GitCheckResult {
    GitCheckResult {
        state: RepoState::Clean,
        uncommitted_count: uncommitted,
        commits_ahead: ahead,
        commits_behind: behind,
    }
}

fn path_of(dir: &TempDir) -> String {
    dir.path().to_str().unwrap().to_string()
}

fn commit(repo: &Repository, message: &str) -> Oid {
    let tree_id = repo.index().unwrap().write_tree().unwrap();
    let tree = repo.find_tree(tree_id).unwrap();
    let who = Signature::now("tester", "tester@example.org").unwrap();
    let parents = match repo.head() {
        Ok(head) => vec![repo.find_commit(head.target().unwrap()).unwrap()],
        Err(_) => vec![],
    };
    let parents: Vec<&git2::Commit> = parents.iter().collect();
    repo.commit(Some("HEAD"), &who, &who, message, &tree, &parents).unwrap()
}

fn branch_name(repo: &Repository) -> String {
    repo.head().unwrap().name().unwrap().to_string()
}

fn track(repo: &Repository, upstream_at: Oid) {
    let branch = branch_name(repo);
    let short = branch.strip_prefix("refs/heads/").unwrap().to_string();
    repo.remote("origin", "file:///nowhere/at/all").unwrap();
    repo.reference(&format!("refs/remotes/origin/{}", short), upstream_at, true, "tracking")
        .unwrap();
    let mut config = repo.config().unwrap();
    config.set_str(&format!("branch.{}.remote", short), "origin").unwrap();
    config.set_str(&format!("branch.{}.merge", short), &branch).unwrap();
}

fn untracked_file(dir: &TempDir) -> NamedTempFile {
    tempfile::Builder::new().prefix("untracked").tempfile_in(dir.path()).unwrap()
}

fn staged_file(dir: &TempDir, repo: &Repository) -> NamedTempFile {
    let file = tempfile::Builder::new().prefix("staged").tempfile_in(dir.path()).unwrap();
    let name = file.path().file_name().unwrap().to_owned();
    let mut index = repo.index().unwrap();
    index.add_path(name.as_ref()).unwrap();
    index.write().unwrap();
    file
}

fn committed_repo() -> (TempDir, Repository) {
    let dir = tempdir().unwrap();
    let repo = Repository::init(dir.path()).unwrap();
    commit(&repo, "first");
    (dir, repo)
}

#[test]
fn repository_without_commits() {
    let dir = tempdir().unwrap();
    let repo = Repository::init(dir.path()).unwrap();
    assert_eq!(probe_head(&repo), HeadProbe::Unborn);
    assert_eq!(check_repo(&repo), Ok(found(0, 0, 0)));
    let _file = staged_file(&dir, &repo);
    assert_eq!(probe_repo(&repo).statuses, Ok(1));
    let result = check_repo(&repo).unwrap();
    assert_eq!(result, found(1, 0, 0));
    assert!(!result.is_all_good());
    assert_eq!(result.describe(), vec!["1 uncommitted change(s)".to_string()]);
}

#[test]
fn committed_repository_is_clean() {
    let (_dir, repo) = committed_repo();
    assert_eq!(probe_head(&repo), HeadProbe::NoUpstream);
    let result = check_repo(&repo).unwrap();
    assert!(result.is_all_good());
    assert_eq!(result.describe(), vec!["all good".to_string()]);
}

#[test]
fn staged_files_count_as_changes() {
    let (dir, repo) = committed_repo();
    let _one = staged_file(&dir, &repo);
    assert_eq!(check_repo(&repo), Ok(found(1, 0, 0)));
    let _two = staged_file(&dir, &repo);
    let result = check_repo(&repo).unwrap();
    assert_eq!(result, found(2, 0, 0));
    assert_eq!(result.describe(), vec!["2 uncommitted change(s)".to_string()]);
}

#[test]
fn files_that_are_not_tracked_do_not_count() {
    let (dir, repo) = committed_repo();
    let file = untracked_file(&dir);
    assert_eq!(check_repo(&repo), Ok(found(0, 0, 0)));
    let name = file.path().file_name().unwrap().to_str().unwrap().to_string();
    repo.add_ignore_rule(&name).unwrap();
    assert_eq!(check_repo(&repo), Ok(found(0, 0, 0)));
}

#[test]
fn a_committed_file_is_no_change() {
    let (dir, repo) = committed_repo();
    let _file = staged_file(&dir, &repo);
    assert_eq!(check_repo(&repo), Ok(found(1, 0, 0)));
    commit(&repo, "with a file");
    assert_eq!(check_repo(&repo), Ok(found(0, 0, 0)));
}

#[test]
fn detached_head_has_no_distance() {
    let (_dir, repo) = committed_repo();
    let first = repo.head().unwrap().target().unwrap();
    let second = commit(&repo, "second");
    track(&repo, second);
    repo.set_head_detached(first).unwrap();
    assert_eq!(probe_head(&repo), HeadProbe::Detached);
    assert_eq!(check_repo(&repo), Ok(found(0, 0, 0)));
}

#[test]
fn branch_behind_its_upstream() {
    let (_dir, repo) = committed_repo();
    let first = repo.head().unwrap().target().unwrap();
    let second = commit(&repo, "second");
    track(&repo, second);
    let branch = branch_name(&repo);
    repo.reference(&branch, first, true, "back to first").unwrap();
    assert_eq!(probe_head(&repo), HeadProbe::Tracking { ahead: 0, behind: 1 });
    let result = check_repo(&repo).unwrap();
    assert_eq!(result, found(0, 0, 1));
    assert_eq!(result.describe(), vec!["1 commit(s) behind".to_string()]);
}

#[test]
fn branch_ahead_of_its_upstream() {
    let (_dir, repo) = committed_repo();
    let first = repo.head().unwrap().target().unwrap();
    commit(&repo, "second");
    commit(&repo, "third");
    track(&repo, first);
    let result = check_repo(&repo).unwrap();
    assert_eq!(result, found(0, 2, 0));
    assert_eq!(result.describe(), vec!["2 commit(s) ahead".to_string()]);
}

#[test]
fn upstream_that_is_gone_is_a_failure() {
    let (_dir, repo) = committed_repo();
    let first = repo.head().unwrap().target().unwrap();
    track(&repo, first);
    let branch = branch_name(&repo);
    let short = branch.strip_prefix("refs/heads/").unwrap();
    repo.find_reference(&format!("refs/remotes/origin/{}", short)).unwrap().delete().unwrap();
    assert!(matches!(probe_head(&repo), HeadProbe::UpstreamUnresolved { .. }));
    assert!(matches!(check_repo(&repo), Err(Failure::Query { .. })));
}

#[test]
fn checking_twice_gives_the_same() {
    let (dir, repo) = committed_repo();
    let _file = staged_file(&dir, &repo);
    let first = check_repo(&repo);
    let second = check_repo(&repo);
    assert_eq!(first, second);
    assert_eq!(probe_repo(&repo), probe_repo(&repo));
}

#[test]
fn a_directory_outside_any_repository() {
    let dir = tempdir().unwrap();
    let path = path_of(&dir);
    match open_repository(&path) {
        Err(Failure::Discovery { dir, detail }) => {
            assert_eq!(dir, path);
            assert!(!detail.is_empty());
        }
        Err(other) => panic!("unexpected failure {:?}", other),
        Ok(_) => panic!("found a repository at {}", path),
    }
    assert!(matches!(check_dir(&path), Err(Failure::Discovery { .. })));
}

#[test]
fn a_repository_is_found_from_below() {
    let (dir, repo) = committed_repo();
    let _file = staged_file(&dir, &repo);
    let inner = tempfile::Builder::new().prefix("inner").tempdir_in(dir.path()).unwrap();
    let opened = open_repository(inner.path().to_str().unwrap()).unwrap();
    let found_at = repository_path(&opened);
    assert_eq!(found_at.trim_end_matches('/'), path_of(&dir).trim_end_matches('/'));
    assert_eq!(check_dir(inner.path().to_str().unwrap()), Ok(found(1, 0, 0)));
}

#[test]
fn failing_directories_among_real_ones() {
    let (clean_dir, _clean) = committed_repo();
    let (dirty_dir, dirty) = committed_repo();
    let _file = staged_file(&dirty_dir, &dirty);
    let outside = tempdir().unwrap();
    let dirs = vec![path_of(&clean_dir), path_of(&outside), path_of(&dirty_dir)];
    assert_eq!(get_failing_expanded_dirs(&dirs, false), Ok(vec![path_of(&dirty_dir)]));
    match get_failing_expanded_dirs(&dirs, true) {
        Err(Failure::Discovery { dir, .. }) => assert_eq!(dir, path_of(&outside)),
        other => panic!("expected a failed discovery, got {:?}", other),
    }
    let repos_only = vec![path_of(&dirty_dir), path_of(&clean_dir)];
    assert_eq!(get_failing_expanded_dirs(&repos_only, true), Ok(vec![path_of(&dirty_dir)]));
}

#[test]
fn the_fix_batch_holds_the_failing_ones() {
    let (clean_dir, _clean) = committed_repo();
    let (dirty_dir, dirty) = committed_repo();
    let _file = staged_file(&dirty_dir, &dirty);
    let cfg = Config::from_parts(
        "git remote update".to_string(),
        None,
        vec![path_of(&clean_dir), path_of(&dirty_dir)],
        vec![],
    )
    .unwrap();
    let batch = handle_fix(&cfg, true).unwrap();
    assert_eq!(batch.dirs, vec![path_of(&dirty_dir)]);
    assert_eq!(batch.machine.total(), 1);
    assert!(!batch.machine.is_finished());
}

#[test]
fn the_scan_checks_every_repository() {
    let (clean_dir, clean) = committed_repo();
    let (dirty_dir, dirty) = committed_repo();
    let _file = staged_file(&dirty_dir, &dirty);
    let entries = check_all_repos(&vec![clean, dirty], true).unwrap();
    assert_eq!(entries.len(), 2);
    assert_eq!(entries[0].path.trim_end_matches('/'), path_of(&clean_dir).trim_end_matches('/'));
    assert_eq!(entries[0].result, CheckResult::Repository(found(0, 0, 0)));
    assert_eq!(entries[1].path.trim_end_matches('/'), path_of(&dirty_dir).trim_end_matches('/'));
    assert_eq!(entries[1].result, CheckResult::Repository(found(1, 0, 0)));
}

#[test]
fn the_refresh_names_the_repository() {
    let (dir, repo) = committed_repo();
    let outside = tempdir().unwrap();
    let cfg = Config::from_parts(
        "git fetch --all".to_string(),
        None,
        vec![path_of(&dir)],
        vec![],
    )
    .unwrap();
    let plan = handle_refresh(&cfg, true);
    assert_eq!(plan.failure, None);
    assert_eq!(
        plan.jobs,
        vec![RefreshJob::Repository {
            line: format!("[1/1] Refreshing {}:", path_of(&dir)),
            dir: path_of(&dir),
            command: format!("GIT_DIR={} git fetch --all", repo.path().display()),
        }]
    );

    let mixed = Config::from_parts(
        "git fetch".to_string(),
        None,
        vec![path_of(&dir), path_of(&outside)],
        vec![],
    )
    .unwrap();
    let lenient = handle_refresh(&mixed, false);
    assert_eq!(lenient.failure, None);
    assert_eq!(lenient.jobs.len(), 2);
    assert_eq!(
        lenient.jobs.iter().filter(|job| matches!(job, RefreshJob::Skipped { .. })).count(),
        1
    );
    let strict = handle_refresh(&mixed, true);
    assert!(matches!(strict.failure, Some(Failure::Discovery { .. })));
    assert!(strict.jobs.len() <= 1);
}

#[test]
fn the_scan_of_a_clean_and_a_dirty_repository() {
    let (clean_dir, clean) = committed_repo();
    let (dirty_dir, dirty) = committed_repo();
    let first = dirty.head().unwrap().target().unwrap();
    let second = commit(&dirty, "second");
    track(&dirty, second);
    let branch = branch_name(&dirty);
    dirty.reference(&branch, first, true, "one behind").unwrap();
    let _one = staged_file(&dirty_dir, &dirty);
    let _two = staged_file(&dirty_dir, &dirty);
    for no_skip in [false, true] {
        let repos = vec![
            Repository::open(clean_dir.path()).unwrap(),
            Repository::open(dirty_dir.path()).unwrap(),
        ];
        let entries = check_all_repos(&repos, no_skip).unwrap();
        assert_eq!(entries.len(), 2);
        assert!(entries[0].result.is_all_good());
        assert_eq!(entries[1].result, CheckResult::Repository(found(2, 0, 1)));
        let report = scan_report(&Config::default(), &entries, false);
        assert_eq!(report.problems.len(), 1);
        assert_eq!(
            report.problems[0].path.trim_end_matches('/'),
            path_of(&dirty_dir).trim_end_matches('/')
        );
        assert!(report.problems[0].problem.contains("2 uncommitted change(s)"));
        assert!(report.problems[0].problem.contains("1 commit(s) behind"));
        assert_eq!(report.exit_status(), 1);
    }
    drop(clean);
}

#[test]
fn no_repository_means_no_entry() {
    assert_eq!(check_all_repos(&vec![], false), Ok(vec![]));
    assert_eq!(check_all_repos(&vec![], true), Ok(vec![]));
}

#[test]
fn best_effort_never_fails() {
    let outside = tempdir().unwrap();
    let dirs = vec![
        path_of(&outside),
        "$CIGN_TEST_VARIABLE_THAT_IS_NEVER_SET/x".to_string(),
        "/nowhere/at/all".to_string(),
    ];
    assert_eq!(get_failing_expanded_dirs(&dirs, false), Ok(vec![]));
    let cfg = Config::from_parts("git fetch".to_string(), None, dirs, vec![]).unwrap();
    let batch = handle_fix(&cfg, false).unwrap();
    assert!(batch.dirs.is_empty());
}
