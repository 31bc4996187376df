//! The scan: checking every repository that was found, and telling the
//! user which have unfinished business.

use crate::config::Config;
use crate::custom::CustomEntry;
use crate::dir::{checks_of, dirs_of, keep_checked, paired, pairs_of, CheckedDir};
use crate::error::{outcome, Failure, FailureView};
use crate::git::{check_repo, verdict, CheckResult, GitCheckResult, RepoProbe};
use crate::policy::{
    batch, lemma_batch_best_effort, lemma_batch_fail_fast, lemma_batch_fails_with_entry,
    lemma_batch_keeps_no_more,
};
use crate::repo::{discover, error_text, metadata_dir, workdir};
use crate::text::{join, joined};
use git2::Repository;
use vstd::prelude::*;

verus! {

/// An entry that was checked: where it is, and what was found.
#[derive(Debug, PartialEq, Eq)]
pub struct ScanEntry {
    pub path: String,
    pub result: CheckResult,
}

/// A line of the table of problems.
#[derive(Debug, PartialEq, Eq)]
pub struct ProblemRow {
    pub path: String,
    pub problem: String,
}

/// What is shown where nothing has unfinished business.
#[derive(Clone, Copy, Debug, PartialEq, Eq, Structural)]
pub enum AllClear {
    /// The word OK.
    Plain,
    /// The picture that the configuration asks for.
    Picture,
}

/// What the scan tells the user.
#[derive(Debug, PartialEq, Eq)]
pub struct Report {
    /// The repositories that have unfinished business, each with its
    /// problem, in the order in which they were checked.
    pub problems: Vec<ProblemRow>,
    /// What is shown in place of the table where it would be empty.
    pub all_clear: AllClear,
    /// The clean repositories, in the order in which they were checked;
    /// none where they are not to be shown.
    pub clean: Option<Vec<String>>,
}

/// The problem of a result, as one text: its facts, set apart by dashes.
pub open spec fn problem_text(result: CheckResult) -> Seq<char> {
    joined(result.description(), " - "@)
}

/// The rows of the table of problems: path and problem of each entry
/// that is not all good, in order.
pub open spec fn problems_of(entries: Seq<ScanEntry>) -> Seq<(Seq<char>, Seq<char>)>
    decreases entries.len(),
{
    if entries.len() == 0 {
        Seq::empty()
    } else if entries.last().result.all_good() {
        problems_of(entries.drop_last())
    } else {
        problems_of(entries.drop_last()).push(
            (entries.last().path@, problem_text(entries.last().result)),
        )
    }
}

/// The paths of the entries that are all good, in order.
pub open spec fn clean_of(entries: Seq<ScanEntry>) -> Seq<Seq<char>>
    decreases entries.len(),
{
    if entries.len() == 0 {
        Seq::empty()
    } else if entries.last().result.all_good() {
        clean_of(entries.drop_last()).push(entries.last().path@)
    } else {
        clean_of(entries.drop_last())
    }
}

/// The rows of a table of problems, each string taken by its characters.
pub open spec fn rows(problems: Seq<ProblemRow>) -> Seq<(Seq<char>, Seq<char>)> {
    Seq::new(problems.len(), |i: int| (problems[i].path@, problems[i].problem@))
}

/// Whether the configuration asks for the picture.
pub open spec fn wants_picture(cfg: Config) -> bool {
    cfg.enable_chad matches Some(answer) && answer@ == "Yes."@
}

impl Report {
    /// The status with which the process ends after the scan: one if
    /// anything has unfinished business, zero if nothing has.
    pub open spec fn status(self) -> int {
        if self.problems.len() == 0 {
            0
        } else {
            1
        }
    }

    /// The status with which the process ends after the scan.
    pub fn exit_status(&self) -> (status: i32)
        ensures
            status == self.status(),
    {
        if self.problems.len() == 0 {
            0
        } else {
            1
        }
    }
}

/// The entry of a scan for a custom entry whose check command ended with
/// the status `exit_code`.
pub fn custom_entry(entry: &CustomEntry, exit_code: i32) -> (scanned: ScanEntry)
    ensures
        scanned.path@ == entry.path@,
        scanned.result == (CheckResult::Custom { passed: exit_code == 0 }),
{
    ScanEntry {
        path: entry.path.clone(),
        result: CheckResult::Custom { passed: entry.check(exit_code) },
    }
}

/// Tells what a scan found: the problems for the table, the clean
/// repositories where `verbose` asks for them, and what to show where
/// there is no problem.
pub fn scan_report(cfg: &Config, entries: &Vec<ScanEntry>, verbose: bool) -> (report: Report)
    ensures
        rows(report.problems@) == problems_of(entries@),
        match report.clean {
            Some(paths) => verbose && paths.deep_view() == clean_of(entries@),
            None => !verbose,
        },
        report.all_clear == if wants_picture(*cfg) {
            AllClear::Picture
        } else {
            AllClear::Plain
        },
{
    let mut problems: Vec<ProblemRow> = Vec::new();
    let mut clean: Vec<String> = Vec::new();
    let mut i: usize = 0;
    assert(entries@.take(0) =~= Seq::empty());
    assert(rows(problems@) =~= Seq::empty());
    assert(clean.deep_view() =~= Seq::<Seq<char>>::empty());
    while i < entries.len()
        invariant
            i <= entries.len(),
            rows(problems@) == problems_of(entries@.take(i as int)),
            clean.deep_view() == clean_of(entries@.take(i as int)),
        decreases entries.len() - i,
    {
        proof {
            assert(entries@.take(i + 1).drop_last() =~= entries@.take(i as int));
            assert(entries@.take(i + 1).last() == entries@[i as int]);
        }
        let ghost shown = rows(problems@);
        let ghost kept = clean.deep_view();
        if entries[i].result.is_all_good() {
            clean.push(entries[i].path.clone());
            assert(clean.deep_view() =~= kept.push(entries[i as int].path@));
        } else {
            let problem = join(&entries[i].result.describe(), " - ");
            problems.push(ProblemRow { path: entries[i].path.clone(), problem });
            assert(rows(problems@) =~= shown.push(
                (entries[i as int].path@, problem_text(entries[i as int].result)),
            ));
        }
        i = i + 1;
    }
    assert(entries@.take(i as int) =~= entries@);
    let yes = String::from_str("Yes.");
    let picture = match &cfg.enable_chad {
        Some(answer) => *answer == yes,
        None => false,
    };
    Report {
        problems,
        all_clear: if picture {
            AllClear::Picture
        } else {
            AllClear::Plain
        },
        clean: if verbose {
            Some(clean)
        } else {
            None
        },
    }
}

/// Where a repository is: its working directory, or its metadata
/// directory where it has none.
pub fn repository_path(repo: &Repository) -> (path: String) {
    let working = workdir(repo);
    let metadata = metadata_dir(repo);
    // which of the two is shown is said by `shown_path`
    shown_path(working, metadata)
}

/// Opens the repository that `dir` lies in, looking upward from it.
pub fn open_repository(dir: &str) -> (r: Result<Repository, Failure>)
    ensures
        r matches Err(failure) ==> (failure matches Failure::Discovery { dir: named, .. }
            && named@ == dir@),
{
    match discover(dir) {
        Ok(repo) => Ok(repo),
        Err(e) => Err(Failure::Discovery { dir: String::from_str(dir), detail: error_text(&e) }),
    }
}

/// The path under which a repository is shown, given its working
/// directory, if it has one, and its metadata directory: the working
/// directory, or the metadata directory where there is none.
pub fn shown_path(workdir: Option<String>, metadata_dir: String) -> (path: String)
    ensures
        path@ == match workdir {
            Some(dir) => dir@,
            None => metadata_dir@,
        },
{
    match workdir {
        Some(dir) => dir,
        None => metadata_dir,
    }
}

/// A reading never amounts to a failure that a batch may not pass over.
pub proof fn lemma_verdict_fails_skippably(probe: RepoProbe)
    ensures
        verdict(probe) matches Err(failure) ==> failure.skippable(),
{
}

/// Scan entries, each path taken by its characters.
pub open spec fn entries_view(entries: Seq<ScanEntry>) -> Seq<(Seq<char>, CheckResult)> {
    Seq::new(entries.len(), |i: int| (entries[i].path@, entries[i].result))
}

/// Scan entries, or a failure, by their views.
pub open spec fn entries_of(r: Result<Vec<ScanEntry>, Failure>) -> Result<
    Seq<(Seq<char>, CheckResult)>,
    FailureView,
> {
    match r {
        Ok(entries) => Ok(entries_view(entries@)),
        Err(failure) => Err(failure@),
    }
}

/// Checked repositories as entries of a scan: each path with its result,
/// as the result of a repository.
pub open spec fn as_repositories(kept: Seq<(Seq<char>, GitCheckResult)>) -> Seq<
    (Seq<char>, CheckResult),
> {
    Seq::new(kept.len(), |i: int| (kept[i].0, CheckResult::Repository(kept[i].1)))
}

/// The entries of a scan of the repositories at `paths`, given the
/// outcome of each one's check: what the policy keeps of the checks, each
/// path with its own result, in order.
pub open spec fn scanned(
    paths: Seq<Seq<char>>,
    checks: Seq<Result<GitCheckResult, FailureView>>,
    no_skip: bool,
) -> Result<Seq<(Seq<char>, CheckResult)>, FailureView> {
    match batch(paired(paths, checks), no_skip) {
        Ok(kept) => Ok(as_repositories(kept)),
        Err(failure) => Err(failure),
    }
}

/// `check` is the verdict on some reading of a repository.
pub open spec fn is_verdict(check: Result<GitCheckResult, FailureView>) -> bool {
    exists|probe: RepoProbe| check == #[trigger] verdict(probe)
}

/// `r` is the scan of `count` repositories that stand at `paths` and whose
/// checks brought `checks`, each the verdict on some reading.
pub open spec fn scan_of(
    count: nat,
    paths: Seq<Seq<char>>,
    checks: Seq<Result<GitCheckResult, FailureView>>,
    no_skip: bool,
    r: Result<Seq<(Seq<char>, CheckResult)>, FailureView>,
) -> bool {
    &&& paths.len() == count
    &&& checks.len() == count
    &&& forall|i: int| 0 <= i < checks.len() ==> is_verdict(#[trigger] checks[i])
    &&& r == scanned(paths, checks, no_skip)
}

/// `r` is what scanning `count` repositories can bring: the scan for some
/// paths at which they stand and some verdicts on them.
pub open spec fn scans_to(
    count: nat,
    no_skip: bool,
    r: Result<Seq<(Seq<char>, CheckResult)>, FailureView>,
) -> bool {
    exists|paths: Seq<Seq<char>>, checks: Seq<Result<GitCheckResult, FailureView>>| #[trigger]
        scan_of(count, paths, checks, no_skip, r)
}

/// Of repositories that were checked, returns the entries of the scan:
/// each repository whose check came through, with its own result, in
/// order, with `no_skip` deciding if a check that failed leaves the
/// repository out or ends the scan.
pub fn scan_entries(checked: Vec<CheckedDir>, no_skip: bool) -> (r: Result<
    Vec<ScanEntry>,
    Failure,
>)
    ensures
        entries_of(r) == scanned(dirs_of(checked@), checks_of(checked@), no_skip),
{
    let kept = match keep_checked(checked, no_skip) {
        Ok(kept) => kept,
        Err(failure) => {
            return Err(failure);
        },
    };
    let mut entries: Vec<ScanEntry> = Vec::new();
    let mut i: usize = 0;
    while i < kept.len()
        invariant
            i <= kept.len(),
            entries.len() == i,
            forall|k: int|
                0 <= k < i ==> (#[trigger] entries@[k]).path@ == kept@[k].0@ && entries@[k].result
                    == CheckResult::Repository(kept@[k].1),
        decreases kept.len() - i,
    {
        let ghost before = entries@;
        entries.push(
            ScanEntry { path: kept[i].0.clone(), result: CheckResult::Repository(kept[i].1) },
        );
        assert forall|k: int| 0 <= k < i + 1 implies (#[trigger] entries@[k]).path@ == kept@[k].0@
            && entries@[k].result == CheckResult::Repository(kept@[k].1) by {
            if k < i {
                assert(entries@[k] == before[k]);
            }
        }
        i = i + 1;
    }
    assert(entries_view(entries@) =~= as_repositories(pairs_of(kept@)));
    Ok(entries)
}

/// Checks the repositories of `repos`, in order, with `no_skip` deciding
/// if a check that fails leaves the repository out or ends the scan.
/// What is found depends on what is on disk; whatever is found, the
/// entries are the ones that `scan_of` tells. Nothing fails in best-effort
/// mode, nor where there is no repository.
pub fn check_all_repos(repos: &Vec<Repository>, no_skip: bool) -> (r: Result<
    Vec<ScanEntry>,
    Failure,
>)
    ensures
        scans_to(repos.len() as nat, no_skip, entries_of(r)),
        match r {
            Ok(entries) => {
                &&& entries.len() <= repos.len()
                &&& no_skip ==> entries.len() == repos.len()
                &&& forall|k: int|
                    0 <= k < entries.len() ==> (#[trigger] entries[k]).result is Repository
            },
            Err(failure) => no_skip && repos.len() > 0 && failure@.skippable(),
        },
{
    let mut checked: Vec<CheckedDir> = Vec::new();
    let mut i: usize = 0;
    while i < repos.len()
        invariant
            i <= repos.len(),
            checked.len() == i,
            forall|k: int| 0 <= k < i ==> is_verdict(outcome((#[trigger] checked@[k]).outcome)),
        decreases repos.len() - i,
    {
        let ghost before = checked@;
        let found = check_repo(&repos[i]);
        checked.push(CheckedDir { dir: repository_path(&repos[i]), outcome: found });
        assert forall|k: int| 0 <= k < i + 1 implies is_verdict(
            outcome((#[trigger] checked@[k]).outcome),
        ) by {
            if k < i {
                assert(checked@[k] == before[k]);
            }
        }
        i = i + 1;
    }
    let ghost paths = dirs_of(checked@);
    let ghost checks = checks_of(checked@);
    let r = scan_entries(checked, no_skip);
    proof {
        let pairs = paired(paths, checks);
        assert forall|k: int| 0 <= k < checks.len() implies is_verdict(#[trigger] checks[k]) by {
            assert(is_verdict(outcome(checked@[k].outcome)));
        }
        assert(scan_of(repos.len() as nat, paths, checks, no_skip, entries_of(r)));
        assert forall|k: int| 0 <= k < pairs.len() implies (#[trigger] pairs[k] matches Err(
            failure,
        ) ==> failure.skippable()) by {
            let probe = choose|probe: RepoProbe| checks[k] == verdict(probe);
            lemma_verdict_fails_skippably(probe);
        }
        assert(pairs.len() == repos.len());
        lemma_batch_keeps_no_more(pairs, no_skip);
        lemma_batch_fails_with_entry(pairs, no_skip);
        if !no_skip {
            lemma_batch_best_effort(pairs);
        }
        if r is Ok {
            let entries = r->Ok_0;
            let kept = batch(pairs, no_skip)->Ok_0;
            assert(entries_view(entries@) == as_repositories(kept));
            assert(entries_view(entries@).len() == entries.len());
            if no_skip {
                lemma_batch_fail_fast(pairs);
            }
            assert forall|k: int| 0 <= k < entries.len() implies (
            #[trigger] entries[k]).result is Repository by {
                assert(entries_view(entries@)[k] == as_repositories(kept)[k]);
            }
        } else {
            let failure = r->Err_0@;
            let k = choose|k: int|
                0 <= k < pairs.len() && #[trigger] pairs[k] == Err::<
                    (Seq<char>, GitCheckResult),
                    FailureView,
                >(failure);
            assert(pairs[k] matches Err(f) ==> f.skippable());
        }
    }
    r
}

} // verus!
