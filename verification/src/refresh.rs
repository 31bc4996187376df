//! Refreshing: for every configured repository and every custom entry, the
//! command that brings it up to date with where it comes from. The
//! commands are run by the caller; here it is decided which, in what
//! order, and what is said about them. Nothing is looked at again
//! afterwards.

use crate::command::{exit_warning, warning_of};
use crate::config::Config;
use crate::custom::CustomEntry;
use crate::dir::{
    expansion_of, get_expanded_dirs, lemma_resolved_count, lemma_resolving_fails_fast, listed,
    resolves_to,
};
use crate::error::{Failure, FailureView};
use crate::policy::{aborts, apply_policy, ends_batch, Step};
use crate::repo::{discover, error_text, metadata_dir};
use crate::text::{decimal, decimal_string};
use vstd::prelude::*;

verus! {

/// The line printed before the repository `index` of `total` is refreshed.
pub open spec fn refreshing_line(index: nat, total: nat, dir: Seq<char>) -> Seq<char> {
    "["@ + decimal(index + 1) + "/"@ + decimal(total) + "] Refreshing "@ + dir + ":"@
}

/// The refresh command for the repository whose metadata lie in
/// `git_dir`: the configured command, told by the environment which
/// repository it is meant for.
pub open spec fn refresh_command(git_dir: Seq<char>, refresh_cmd: Seq<char>) -> Seq<char> {
    "GIT_DIR="@ + git_dir + " "@ + refresh_cmd
}

/// The warning about a repository that is left out because it could not
/// be opened.
pub open spec fn skip_warning(dir: Seq<char>, detail: Seq<char>) -> Seq<char> {
    dir + ": Skipping, opening the repo failed: "@ + detail
}

/// A configured repository path after the attempt to open it: the
/// directory of the repository's metadata, or why it could not be opened.
#[derive(Debug, PartialEq, Eq)]
pub struct Opened {
    pub dir: String,
    pub metadata: Result<String, String>,
}

/// One thing to do in a refresh.
#[derive(Debug, PartialEq, Eq)]
pub enum RefreshJob {
    /// Print `line`, then run `command` through a shell, from the
    /// directory in which the process stands.
    Repository { line: String, dir: String, command: String },
    /// Print `line` and log `warning`: the repository is left out.
    Skipped { line: String, warning: String },
    /// Run `command` through a shell in `dir`, and come back from there on
    /// every way out. It is the refresh command of the custom entry `entry`.
    Custom { entry: usize, dir: String, command: String },
    /// Log `warning`: the custom entry `entry` is left out.
    CustomSkipped { entry: usize, warning: String },
}

/// What a refresh is to do, in order, and the failure with which it is to
/// end after that, if any.
#[derive(Debug, PartialEq, Eq)]
pub struct RefreshPlan {
    pub jobs: Vec<RefreshJob>,
    pub failure: Option<Failure>,
}

/// `job` is the job for the repository `index` of `total`, given what
/// opening it brought: its refresh, or the warning that it is left out.
pub open spec fn job_for(
    job: RefreshJob,
    opened: Opened,
    index: nat,
    total: nat,
    refresh_cmd: Seq<char>,
) -> bool {
    match opened.metadata {
        Ok(git_dir) => job matches RefreshJob::Repository { line, dir, command } && line@
            == refreshing_line(index, total, opened.dir@) && dir@ == opened.dir@ && command@
            == refresh_command(git_dir@, refresh_cmd),
        Err(detail) => job matches RefreshJob::Skipped { line, warning } && line@
            == refreshing_line(index, total, opened.dir@) && warning@ == skip_warning(
            opened.dir@,
            detail@,
        ),
    }
}

/// `plan` is the plan for the repositories of `opened`: a job for each in
/// order, up to the first that could not be opened where that ends the
/// batch, and then the failure to open that one.
pub open spec fn plans_repositories(
    plan: RefreshPlan,
    opened: Seq<Opened>,
    refresh_cmd: Seq<char>,
    no_skip: bool,
) -> bool {
    &&& plan.jobs.len() <= opened.len()
    &&& forall|k: int|
        0 <= k < plan.jobs.len() ==> planned_job(plan.jobs@, opened, k, refresh_cmd, no_skip)
    &&& if plan.jobs.len() < opened.len() {
        let unopened = opened[plan.jobs.len() as int];
        &&& no_skip
        &&& unopened.metadata is Err
        &&& plan.failure is Some
        &&& plan.failure->Some_0@ == (FailureView::Discovery {
            dir: unopened.dir@,
            detail: unopened.metadata->Err_0@,
        })
    } else {
        plan.failure is None
    }
}

/// The job at index `k` of `jobs` is the job for the repository `k` of
/// `opened`, which in fail-fast mode could be opened.
pub open spec fn planned_job(
    jobs: Seq<RefreshJob>,
    opened: Seq<Opened>,
    k: int,
    refresh_cmd: Seq<char>,
    no_skip: bool,
) -> bool {
    &&& job_for(jobs[k], opened[k], k as nat, opened.len(), refresh_cmd)
    &&& no_skip ==> opened[k].metadata is Ok
}

fn refreshing(index: usize, total: usize, dir: &str) -> (line: String)
    requires
        index < total,
    ensures
        line@ == refreshing_line(index as nat, total as nat, dir@),
{
    let mut line = String::from_str("[");
    line.append(decimal_string(index + 1).as_str());
    line.append("/");
    line.append(decimal_string(total).as_str());
    line.append("] Refreshing ");
    line.append(dir);
    line.append(":");
    line
}

/// Plans the refresh of the repositories of `opened`, with `no_skip`
/// deciding if a repository that could not be opened is left out with a
/// warning or ends the batch.
pub fn repository_jobs(opened: &Vec<Opened>, refresh_cmd: &str, no_skip: bool) -> (plan:
    RefreshPlan)
    ensures
        plans_repositories(plan, opened@, refresh_cmd@, no_skip),
{
    let mut jobs: Vec<RefreshJob> = Vec::new();
    let total = opened.len();
    let mut i: usize = 0;
    while i < opened.len()
        invariant
            i <= opened.len(),
            total == opened.len(),
            jobs.len() == i,
            forall|k: int| 0 <= k < i ==> planned_job(jobs@, opened@, k, refresh_cmd@, no_skip),
        decreases opened.len() - i,
    {
        let line = refreshing(i, total, opened[i].dir.as_str());
        let ghost before = jobs@;
        match &opened[i].metadata {
            Ok(git_dir) => {
                let mut command = String::from_str("GIT_DIR=");
                command.append(git_dir.as_str());
                command.append(" ");
                command.append(refresh_cmd);
                jobs.push(RefreshJob::Repository { line, dir: opened[i].dir.clone(), command });
            },
            Err(detail) => {
                let failure = Failure::Discovery {
                    dir: opened[i].dir.clone(),
                    detail: detail.clone(),
                };
                if ends_batch(&failure, no_skip) {
                    return RefreshPlan { jobs, failure: Some(failure) };
                }
                let mut warning = opened[i].dir.clone();
                warning.append(": Skipping, opening the repo failed: ");
                warning.append(detail.as_str());
                jobs.push(RefreshJob::Skipped { line, warning });
            },
        }
        assert forall|k: int| 0 <= k < i + 1 implies planned_job(
            jobs@,
            opened@,
            k,
            refresh_cmd@,
            no_skip,
        ) by {
            if k < i {
                assert(planned_job(before, opened@, k, refresh_cmd@, no_skip));
                assert(jobs@[k] == before[k]);
            }
        }
        i = i + 1;
    }
    RefreshPlan { jobs, failure: None }
}

/// The warning to log after the refresh command of the repository at `dir`
/// ended with the status `exit_code`: none for the status zero. A status
/// other than zero is no failure.
pub fn refresh_exit_warning(dir: &str, exit_code: i32) -> (warning: Option<String>)
    ensures
        match warning {
            Some(text) => exit_warning(dir@, "refresh command"@, exit_code as int) == Some(text@),
            None => exit_warning(dir@, "refresh command"@, exit_code as int) is None,
        },
{
    warning_of(dir, "refresh command", exit_code)
}

/// `job` is the job for the custom entry `entry`, which stands at `index`
/// among the custom entries: its own refresh command, to be run in
/// something that its path can expand to; or, in best-effort mode only,
/// the warning that it is left out because its path could not be expanded.
pub open spec fn custom_job(job: RefreshJob, entry: CustomEntry, index: int, no_skip: bool) -> bool {
    match job {
        RefreshJob::Custom { entry: at, dir, command } => at == index && command@
            == entry.refresh_cmd@ && expansion_of(
            entry.path@,
            Ok::<Seq<char>, FailureView>(dir@),
        ),
        RefreshJob::CustomSkipped { entry: at, warning } => at == index && !no_skip && exists|
            detail: Seq<char>,
        | warning@ == #[trigger] unexpanded_warning(entry.path@, detail),
        _ => false,
    }
}

/// The job that follows the first `done` jobs of `jobs` at the distance
/// `t` is the job for the custom entry `t`.
pub open spec fn planned_custom(
    jobs: Seq<RefreshJob>,
    done: int,
    t: int,
    custom: Seq<CustomEntry>,
    no_skip: bool,
) -> bool {
    custom_job(jobs[done + t], custom[t], t, no_skip)
}

/// Plans a refresh: first the configured repositories, in their order,
/// each opened and refreshed by the configured command; then the custom
/// entries, each by its own command. A path that cannot be expanded and
/// a repository that cannot be opened go by `no_skip`: left out with a
/// warning, or the end of the batch. Which paths expand and which
/// repositories open depends on the environment and on what is on disk;
/// for each way that can go, the plan is the one that `refreshes` tells.
pub fn handle_refresh(cfg: &Config, no_skip: bool) -> (plan: RefreshPlan)
    ensures
        plans_refresh(*cfg, no_skip, plan),
        plan.jobs.len() <= cfg.git@.len() + cfg.custom.len(),
        plan.failure matches Some(failure) ==> aborts(failure@, no_skip),
        !no_skip ==> plan.failure is None,
{
    let resolved = get_expanded_dirs(cfg.git.as_vec(), no_skip);
    let ghost resolution = listed(resolved);
    proof {
        lemma_resolved_count(cfg.git@, no_skip, resolution);
    }
    let dirs = match resolved {
        Ok(dirs) => dirs,
        Err(failure) => {
            let plan = RefreshPlan { jobs: Vec::new(), failure: Some(failure) };
            proof {
                lemma_resolving_fails_fast(cfg.git@, no_skip, failure@);
                assert(refreshes(*cfg, no_skip, resolution, Seq::<Opened>::empty(), plan));
            }
            return plan;
        },
    };
    let ghost paths = dirs.deep_view();
    let mut opened: Vec<Opened> = Vec::new();
    let mut i: usize = 0;
    while i < dirs.len()
        invariant
            i <= dirs.len(),
            opened.len() == i,
            paths == dirs.deep_view(),
            forall|k: int| 0 <= k < i ==> (#[trigger] opened@[k]).dir@ == paths[k],
        decreases dirs.len() - i,
    {
        let metadata = match discover(dirs[i].as_str()) {
            Ok(repo) => Ok(metadata_dir(&repo)),
            Err(e) => Err(error_text(&e)),
        };
        let ghost before = opened@;
        opened.push(Opened { dir: dirs[i].clone(), metadata });
        assert forall|k: int| 0 <= k < i + 1 implies (#[trigger] opened@[k]).dir@ == paths[k] by {
            if k < i {
                assert(opened@[k] == before[k]);
            }
        }
        i = i + 1;
    }
    assert(opened_from(paths, opened@));
    let plan = repository_jobs(&opened, cfg.refresh_cmd.as_str(), no_skip);
    if plan.failure.is_some() {
        proof {
            assert(plan.jobs.len() < paths.len());
            assert(refreshes(*cfg, no_skip, resolution, opened@, plan));
        }
        return plan;
    }
    let ghost done = paths.len() as int;
    let mut jobs = plan.jobs;
    let mut j: usize = 0;
    while j < cfg.custom.len()
        invariant
            j <= cfg.custom.len(),
            done == paths.len(),
            done <= cfg.git@.len(),
            resolution == Ok::<Seq<Seq<char>>, FailureView>(paths),
            resolves_to(cfg.git@, no_skip, resolution),
            jobs.len() == done + j,
            opened_from(paths, opened@),
            forall|k: int|
                0 <= k < done ==> planned_job(jobs@, opened@, k, cfg.refresh_cmd@, no_skip),
            forall|t: int| 0 <= t < j ==> planned_custom(jobs@, done, t, cfg.custom@, no_skip),
        decreases cfg.custom.len() - j,
    {
        let ghost before = jobs@;
        let planned = cfg.custom[j].refresh_plan();
        let ghost entry = cfg.custom@[j as int];
        match apply_policy(planned, no_skip) {
            Step::Keep(command) => {
                jobs.push(
                    RefreshJob::Custom { entry: j, dir: command.dir, command: command.command },
                );
            },
            Step::Skip(failure) => {
                let warning = failure.message();
                proof {
                    assert(warning@ == unexpanded_warning(
                        entry.path@,
                        failure@->Expansion_detail,
                    ));
                }
                jobs.push(RefreshJob::CustomSkipped { entry: j, warning });
            },
            Step::Abort(failure) => {
                let plan = RefreshPlan { jobs, failure: Some(failure) };
                proof {
                    assert(expansion_of(
                        entry.path@,
                        Err::<Seq<char>, FailureView>(failure@),
                    ));
                    assert(no_skip);
                    assert(plan.jobs.len() - done == j);
                    assert(cfg.custom[j as int] == entry);
                    assert(refreshes(*cfg, no_skip, resolution, opened@, plan));
                }
                return plan;
            },
        }
        proof {
            assert(custom_job(jobs@[done + j], entry, j as int, no_skip));
            assert forall|k: int| 0 <= k < done implies planned_job(
                jobs@,
                opened@,
                k,
                cfg.refresh_cmd@,
                no_skip,
            ) by {
                assert(planned_job(before, opened@, k, cfg.refresh_cmd@, no_skip));
                assert(jobs@[k] == before[k]);
            }
            assert forall|t: int| 0 <= t < j + 1 implies planned_custom(
                jobs@,
                done,
                t,
                cfg.custom@,
                no_skip,
            ) by {
                if t < j {
                    assert(planned_custom(before, done, t, cfg.custom@, no_skip));
                    assert(jobs@[done + t] == before[done + t]);
                }
            }
        }
        j = j + 1;
    }
    let plan = RefreshPlan { jobs, failure: None };
    proof {
        assert(refreshes(*cfg, no_skip, resolution, opened@, plan));
    }
    plan
}

/// `opened` holds, for each path of `paths` in order, that path and what
/// opening it brought.
pub open spec fn opened_from(paths: Seq<Seq<char>>, opened: Seq<Opened>) -> bool {
    &&& opened.len() == paths.len()
    &&& forall|k: int| 0 <= k < paths.len() ==> (#[trigger] opened[k]).dir@ == paths[k]
}

/// The warning about a custom entry that is left out because its path
/// could not be expanded, for the reason `detail`.
pub open spec fn unexpanded_warning(path: Seq<char>, detail: Seq<char>) -> Seq<char> {
    (FailureView::Expansion { dir: path, detail }).message()
}

/// `plan` is the plan of a refresh under `cfg`, given what resolving the
/// configured paths brought and what opening the resolved paths brought.
///
/// Where the paths could not be resolved, nothing is done and the plan
/// ends with that failure. Else the repositories come first, a job for
/// each in the order of the paths: where one could not be opened and that
/// ends the batch, the plan ends there, with the failure to open it. After
/// the repositories come the custom entries, a job for each in their
/// order, up to the first whose path cannot be expanded where that ends
/// the batch; the plan then ends with that failure.
pub open spec fn refreshes(
    cfg: Config,
    no_skip: bool,
    resolved: Result<Seq<Seq<char>>, FailureView>,
    opened: Seq<Opened>,
    plan: RefreshPlan,
) -> bool {
    match resolved {
        Err(failure) => plan.jobs.len() == 0 && plan.failure is Some && plan.failure->Some_0@
            == failure,
        Ok(paths) => {
            &&& opened_from(paths, opened)
            &&& if plan.jobs.len() < paths.len() {
                plans_repositories(plan, opened, cfg.refresh_cmd@, no_skip)
            } else {
                let done = paths.len() as int;
                let customs = plan.jobs.len() - done;
                &&& forall|k: int|
                    0 <= k < done ==> planned_job(
                        plan.jobs@,
                        opened,
                        k,
                        cfg.refresh_cmd@,
                        no_skip,
                    )
                &&& customs <= cfg.custom.len()
                &&& forall|t: int|
                    0 <= t < customs ==> planned_custom(plan.jobs@, done, t, cfg.custom@, no_skip)
                &&& if customs < cfg.custom.len() {
                    &&& no_skip
                    &&& plan.failure is Some
                    &&& expansion_of(
                        cfg.custom[customs].path@,
                        Err::<Seq<char>, FailureView>(plan.failure->Some_0@),
                    )
                } else {
                    plan.failure is None
                }
            }
        },
    }
}

/// `plan` is what planning a refresh under `cfg` can bring: the plan for
/// something that resolving the configured paths can bring, and for some
/// outcome of opening each resolved path.
pub open spec fn plans_refresh(cfg: Config, no_skip: bool, plan: RefreshPlan) -> bool {
    exists|resolved: Result<Seq<Seq<char>>, FailureView>, opened: Seq<Opened>|
        resolves_to(cfg.git@, no_skip, resolved) && #[trigger] refreshes(
            cfg,
            no_skip,
            resolved,
            opened,
            plan,
        )
}

} // verus!
