//! What the commands of the tool decide and say: adding and removing a
//! repository, listing the repositories, and the lines and prompts of the
//! fix and refresh batches.

use crate::config::Config;
use crate::dir::{finds_failing, get_failing_expanded_dirs};
use crate::error::{outcome, told, Failure, FailureView};
use crate::fix::{Event, FixLoop, FixLoopView};
use crate::git::CheckResult;
use crate::pathset::{with_path, without_path};
use crate::policy::{aborts, ends_batch};
use crate::text::{decimal, decimal_string, join, joined, signed_decimal, signed_decimal_string};
use vstd::prelude::*;

verus! {

/// The line that tells of adding `dir`.
pub open spec fn adding_line(dir: Seq<char>) -> Seq<char> {
    "Adding "@ + dir
}

/// The question that is asked before `dir` is removed.
pub open spec fn removal_prompt(dir: Seq<char>) -> Seq<char> {
    "Remove "@ + dir + "?"@
}

/// "`index + 1`/`total`: `verb` `dir`": where a batch stands.
pub open spec fn progress_line(index: nat, total: nat, verb: Seq<char>, dir: Seq<char>) -> Seq<
    char,
> {
    decimal(index + 1) + "/"@ + decimal(total) + ": "@ + verb + " "@ + dir
}

/// The line printed before each remediation attempt on the entry `index`.
pub open spec fn fixing_line(index: nat, total: nat, dir: Seq<char>) -> Seq<char> {
    progress_line(index, total, "Fixing"@, dir)
}

/// The line printed when the entry `index` is left.
pub open spec fn leaving_line(index: nat, total: nat, dir: Seq<char>) -> Seq<char> {
    progress_line(index, total, "Leaving"@, dir)
}

/// The warning about a command that ended in `dir` with the status
/// `exit_code`, where `what` names the command: none for the status zero.
pub open spec fn exit_warning(dir: Seq<char>, what: Seq<char>, exit_code: int) -> Option<
    Seq<char>,
> {
    if exit_code == 0 {
        None
    } else {
        Some(dir + ": "@ + what + " exited with code "@ + signed_decimal(exit_code))
    }
}

/// The question asked about an entry that is still failing on `facts`.
pub open spec fn retry_prompt(dir: Seq<char>, facts: Seq<Seq<char>>) -> Seq<char> {
    dir + ": still failing ("@ + joined(facts, ", "@) + "). Retry?"@
}

/// Everything of the configuration but the repository paths is as it was.
pub open spec fn same_but_git(before: Config, after: Config) -> bool {
    &&& after.refresh_cmd == before.refresh_cmd
    &&& after.enable_chad == before.enable_chad
    &&& after.custom == before.custom
}

/// Adds the repository path `new_dir` to the configuration, if it is a
/// directory, which the caller has looked up. Returns the line that tells
/// the user so.
pub fn handle_add(cfg: &mut Config, new_dir: &str, is_dir: bool) -> (r: Result<String, Failure>)
    requires
        old(cfg).wf(),
    ensures
        final(cfg).wf(),
        same_but_git(*old(cfg), *final(cfg)),
        told(r) == if is_dir {
            Ok::<Seq<char>, FailureView>(adding_line(new_dir@))
        } else {
            Err::<Seq<char>, FailureView>(FailureView::NotADirectory { dir: new_dir@ })
        },
        final(cfg).git@ == if is_dir {
            with_path(old(cfg).git@, new_dir@)
        } else {
            old(cfg).git@
        },
{
    if is_dir {
        let _ = cfg.git.insert(String::from_str(new_dir));
        let mut line = String::from_str("Adding ");
        line.append(new_dir);
        Ok(line)
    } else {
        Err(Failure::NotADirectory { dir: String::from_str(new_dir) })
    }
}

/// The question to ask before `dir_to_delete` is removed, or the failure
/// to find it in the configuration, in which case nothing is asked.
pub fn ask_removal(cfg: &Config, dir_to_delete: &str) -> (r: Result<String, Failure>)
    requires
        cfg.wf(),
    ensures
        told(r) == if cfg.git@.contains(dir_to_delete@) {
            Ok::<Seq<char>, FailureView>(removal_prompt(dir_to_delete@))
        } else {
            Err::<Seq<char>, FailureView>(FailureView::NotInConfig { dir: dir_to_delete@ })
        },
{
    if cfg.git.contains(dir_to_delete) {
        let mut prompt = String::from_str("Remove ");
        prompt.append(dir_to_delete);
        prompt.append("?");
        Ok(prompt)
    } else {
        Err(Failure::NotInConfig { dir: String::from_str(dir_to_delete) })
    }
}

/// Removes the repository path `dir_to_delete` from the configuration, if
/// it is there and the user has confirmed the removal. A path that is not
/// configured fails before any answer counts.
pub fn handle_del(cfg: &mut Config, dir_to_delete: &str, confirmed: bool) -> (r: Result<
    (),
    Failure,
>)
    requires
        old(cfg).wf(),
    ensures
        final(cfg).wf(),
        same_but_git(*old(cfg), *final(cfg)),
        outcome(r) == if !old(cfg).git@.contains(dir_to_delete@) {
            Err::<(), FailureView>(FailureView::NotInConfig { dir: dir_to_delete@ })
        } else if !confirmed {
            Err::<(), FailureView>(FailureView::NotConfirmed)
        } else {
            Ok::<(), FailureView>(())
        },
        final(cfg).git@ == if r is Ok {
            without_path(old(cfg).git@, dir_to_delete@)
        } else {
            old(cfg).git@
        },
{
    if !cfg.git.contains(dir_to_delete) {
        return Err(Failure::NotInConfig { dir: String::from_str(dir_to_delete) });
    }
    if confirmed {
        let _ = cfg.git.remove(dir_to_delete);
        Ok(())
    } else {
        Err(Failure::NotConfirmed)
    }
}

/// The configured repository paths, one on each line, in their order.
pub fn handle_list(cfg: &Config) -> (listing: String)
    ensures
        listing@ == joined(cfg.git@, "\n"@),
{
    join(cfg.git.as_vec(), "\n")
}

fn progress(index: usize, total: usize, verb: &str, dir: &str) -> (line: String)
    requires
        index < total,
    ensures
        line@ == progress_line(index as nat, total as nat, verb@, dir@),
{
    let mut line = decimal_string(index + 1);
    line.append("/");
    line.append(decimal_string(total).as_str());
    line.append(": ");
    line.append(verb);
    line.append(" ");
    line.append(dir);
    line
}

/// The line to print before a remediation attempt on the entry `index` of
/// a batch of `total`: its position, counted from one, and its directory.
pub fn fixing(index: usize, total: usize, dir: &str) -> (line: String)
    requires
        index < total,
    ensures
        line@ == fixing_line(index as nat, total as nat, dir@),
{
    progress(index, total, "Fixing", dir)
}

/// The line to print when the entry `index` of a batch of `total` is left.
pub fn leaving(index: usize, total: usize, dir: &str) -> (line: String)
    requires
        index < total,
    ensures
        line@ == leaving_line(index as nat, total as nat, dir@),
{
    progress(index, total, "Leaving", dir)
}

/// The warning to log after a command that `what` names ended in `dir`
/// with the status `exit_code`: none for the status zero.
pub fn warning_of(dir: &str, what: &str, exit_code: i32) -> (warning: Option<String>)
    ensures
        match warning {
            Some(text) => exit_warning(dir@, what@, exit_code as int) == Some(text@),
            None => exit_warning(dir@, what@, exit_code as int) is None,
        },
{
    if exit_code == 0 {
        None
    } else {
        let mut text = String::from_str(dir);
        text.append(": ");
        text.append(what);
        text.append(" exited with code ");
        text.append(signed_decimal_string(exit_code).as_str());
        Some(text)
    }
}

/// The warning to log after the remediation command ended in `dir` with
/// the status `exit_code`: none for the status zero. A status other than
/// zero is no failure, and does not end the visit of the entry.
pub fn fix_exit_warning(dir: &str, exit_code: i32) -> (warning: Option<String>)
    ensures
        match warning {
            Some(text) => exit_warning(dir@, "command"@, exit_code as int) == Some(text@),
            None => exit_warning(dir@, "command"@, exit_code as int) is None,
        },
{
    warning_of(dir, "command", exit_code)
}

/// The question to ask about an entry that is still failing: its
/// directory, the facts of its description, and whether to retry.
pub fn retry_question(dir: &str, facts: &Vec<String>) -> (prompt: String)
    ensures
        prompt@ == retry_prompt(dir@, facts.deep_view()),
{
    let mut prompt = String::from_str(dir);
    prompt.append(": still failing (");
    prompt.append(join(facts, ", ").as_str());
    prompt.append("). Retry?");
    prompt
}

/// The entries of a fix batch, in the order in which they are visited,
/// and the machine that takes the caller through them.
#[derive(Debug)]
pub struct FixBatch {
    pub dirs: Vec<String>,
    pub machine: FixLoop,
}

/// Sets up the fix batch: the configured repositories that have
/// unfinished business, in the order of the configuration, and a machine
/// that has not begun. Which repositories those are depends on what is on
/// disk; whatever they are, they come as `finds_failing` says. In
/// best-effort mode nothing makes this fail.
pub fn handle_fix(cfg: &Config, no_skip: bool) -> (r: Result<FixBatch, Failure>)
    ensures
        !no_skip ==> r is Ok,
        match r {
            Ok(batch) => {
                &&& finds_failing(
                    cfg.git@,
                    no_skip,
                    Ok::<Seq<Seq<char>>, FailureView>(batch.dirs.deep_view()),
                )
                &&& batch.machine@ == FixLoopView::fresh(batch.dirs.len())
                &&& batch.machine.wf()
            },
            Err(failure) => finds_failing(
                cfg.git@,
                no_skip,
                Err::<Seq<Seq<char>>, FailureView>(failure@),
            ),
        },
{
    match get_failing_expanded_dirs(cfg.git.as_vec(), no_skip) {
        Ok(dirs) => {
            let machine = FixLoop::new(dirs.len());
            Ok(FixBatch { dirs, machine })
        },
        Err(failure) => Err(failure),
    }
}

/// What the machine of a fix batch is to be told of a failure to open or
/// look at an entry: that it ends the batch, or that the entry is passed
/// over, as the policy has it.
pub fn failed_event(failure: &Failure, no_skip: bool) -> (event: Event)
    ensures
        event == (Event::Failed { ends: aborts(failure@, no_skip) }),
{
    Event::Failed { ends: ends_batch(failure, no_skip) }
}

/// What the machine of a fix batch is to be told after an entry was
/// looked at again: that it was found clean or not, or that looking failed.
pub fn checked_event(result: &Result<CheckResult, Failure>, no_skip: bool) -> (event: Event)
    ensures
        event == match *result {
            Ok(found) => Event::Checked { clean: found.all_good() },
            Err(failure) => Event::Failed { ends: aborts(failure@, no_skip) },
        },
{
    match result {
        Ok(found) => Event::Checked { clean: found.is_all_good() },
        Err(failure) => failed_event(failure, no_skip),
    }
}

} // verus!
