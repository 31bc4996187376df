//! Directories that are not repositories, checked and refreshed by commands
//! of the user's own.

use crate::dir::{expand_dir, expansion_of};
use crate::error::{Failure, FailureView};
use crate::policy::{batch, ends_batch, lemma_batch_ends_at};
use crate::text::{signed_decimal, signed_decimal_string};
use vstd::prelude::*;

verus! {

/// A directory with the command that checks it and the command that
/// refreshes it. Its name tells it from the other custom entries.
#[derive(Clone, Debug, PartialEq, Eq, PartialOrd, Ord)]
pub struct CustomEntry {
    pub name: String,
    pub path: String,
    pub check_cmd: String,
    pub refresh_cmd: String,
}

/// A command, and the directory in which it is to be run.
#[derive(Debug, PartialEq, Eq)]
pub struct CommandPlan {
    pub dir: String,
    pub command: String,
}

/// What planning a command of an entry can bring: the command, to be run
/// in something that the entry's path can expand to, or the failure to
/// expand the path.
pub open spec fn plans(
    path: Seq<char>,
    command: Seq<char>,
    r: Result<CommandPlan, Failure>,
) -> bool {
    match r {
        Ok(plan) => plan.command@ == command && expansion_of(
            path,
            Ok::<Seq<char>, FailureView>(plan.dir@),
        ),
        Err(failure) => expansion_of(path, Err::<Seq<char>, FailureView>(failure@)),
    }
}

/// The warning about a refresh command of the entry at `path` that ended
/// with the status `exit_code`: none for the status zero.
pub open spec fn refresh_warning(path: Seq<char>, exit_code: int) -> Option<Seq<char>> {
    if exit_code == 0 {
        None
    } else {
        Some(
            path + ": custom dir refresh command exited with code "@ + signed_decimal(exit_code),
        )
    }
}

fn plan(path: &str, command: &str) -> (r: Result<CommandPlan, Failure>)
    ensures
        plans(path@, command@, r),
{
    match expand_dir(path) {
        Ok(dir) => Ok(CommandPlan { dir, command: String::from_str(command) }),
        Err(failure) => Err(failure),
    }
}

impl CustomEntry {
    /// Where the check command is to be run, and the command. The caller
    /// runs it there through a shell, restores the directory it came from
    /// on every way out, and hands the exit status to [`CustomEntry::check`].
    pub fn check_plan(&self) -> (r: Result<CommandPlan, Failure>)
        ensures
            plans(self.path@, self.check_cmd@, r),
    {
        plan(self.path.as_str(), self.check_cmd.as_str())
    }

    /// The verdict on the entry, from the exit status of its check
    /// command: it passes if and only if the status is zero.
    pub fn check(&self, exit_code: i32) -> (passed: bool)
        ensures
            passed == (exit_code == 0),
    {
        exit_code == 0
    }

    /// Where the refresh command is to be run, and the command.
    pub fn refresh_plan(&self) -> (r: Result<CommandPlan, Failure>)
        ensures
            plans(self.path@, self.refresh_cmd@, r),
    {
        plan(self.path.as_str(), self.refresh_cmd.as_str())
    }

    /// What is to be logged after the refresh command ended with the
    /// status `exit_code`: a warning for a status other than zero, which
    /// is no failure.
    pub fn refresh(&self, exit_code: i32) -> (warning: Option<String>)
        ensures
            match warning {
                Some(text) => refresh_warning(self.path@, exit_code as int) == Some(text@),
                None => refresh_warning(self.path@, exit_code as int) is None,
            },
    {
        if exit_code == 0 {
            None
        } else {
            let mut text = self.path.clone();
            text.append(": custom dir refresh command exited with code ");
            text.append(signed_decimal_string(exit_code).as_str());
            Some(text)
        }
    }
}

/// The outcome of each custom entry's check with the entry's index: a
/// check that could not be run fails the entry, one that was run keeps the
/// index and whether it passed.
pub open spec fn indexed(outcomes: Seq<Result<bool, Failure>>) -> Seq<
    Result<(int, bool), FailureView>,
> {
    Seq::new(
        outcomes.len(),
        |i: int|
            match outcomes[i] {
                Ok(passed) => Ok((i, passed)),
                Err(failure) => Err(failure@),
            },
    )
}

/// The indices among `kept` whose check did not pass, in order.
pub open spec fn not_passed(kept: Seq<(int, bool)>) -> Seq<int>
    decreases kept.len(),
{
    if kept.len() == 0 {
        Seq::empty()
    } else if kept.last().1 {
        not_passed(kept.drop_last())
    } else {
        not_passed(kept.drop_last()).push(kept.last().0)
    }
}

/// The custom entries that have unfinished business, by their indices,
/// given the outcome of each entry's check: what the policy keeps of the
/// checks, and of that the entries whose check did not pass.
pub open spec fn failing_entries(outcomes: Seq<Result<bool, Failure>>, no_skip: bool) -> Result<
    Seq<int>,
    FailureView,
> {
    match batch(indexed(outcomes), no_skip) {
        Ok(kept) => Ok(not_passed(kept)),
        Err(failure) => Err(failure),
    }
}

/// Indices, or a failure, by their views.
pub open spec fn indices_of(r: Result<Vec<usize>, Failure>) -> Result<Seq<int>, FailureView> {
    match r {
        Ok(indices) => Ok(Seq::new(indices.len() as nat, |i: int| indices[i] as int)),
        Err(failure) => Err(failure@),
    }
}

/// Of the custom entries, returns the indices of those that have
/// unfinished business, given the outcome of each entry's check, with
/// `no_skip` deciding if a check that could not be run leaves the entry
/// out or fails the whole operation. They are the entries of the second
/// fix batch, in the order in which they are visited.
pub fn failing_customs(outcomes: Vec<Result<bool, Failure>>, no_skip: bool) -> (r: Result<
    Vec<usize>,
    Failure,
>)
    ensures
        indices_of(r) == failing_entries(outcomes@, no_skip),
{
    let ghost all = outcomes@;
    let ghost entries = indexed(all);
    let ghost mut kept: Seq<(int, bool)> = Seq::empty();
    let mut left = outcomes;
    let mut failing: Vec<usize> = Vec::new();
    let mut i: usize = 0;
    assert(entries.take(0) =~= Seq::empty());
    assert(indices_of(Ok(failing)) == Ok::<Seq<int>, FailureView>(not_passed(kept))) by {
        assert(Seq::new(failing.len() as nat, |k: int| failing[k] as int) =~= Seq::<int>::empty());
    }
    while i < left.len()
        invariant
            i <= left.len(),
            left@ == all,
            all == outcomes@,
            entries == indexed(all),
            batch(entries.take(i as int), no_skip) == Ok::<Seq<(int, bool)>, FailureView>(kept),
            Seq::new(failing.len() as nat, |k: int| failing[k] as int) == not_passed(kept),
        decreases left.len() - i,
    {
        proof {
            assert(entries.take(i + 1).drop_last() =~= entries.take(i as int));
            assert(entries.take(i + 1).last() == entries[i as int]);
        }
        let ghost before = Seq::new(failing.len() as nat, |k: int| failing[k] as int);
        let mut ends = false;
        match &left[i] {
            Ok(passed) => {
                if !*passed {
                    failing.push(i);
                    assert(Seq::new(failing.len() as nat, |k: int| failing[k] as int)
                        =~= before.push(i as int));
                }
                proof {
                    let grown = kept.push((i as int, *passed));
                    assert(grown.drop_last() =~= kept);
                    kept = grown;
                }
            },
            Err(failure) => {
                ends = ends_batch(failure, no_skip);
            },
        }
        if ends {
            proof {
                assert(entries[i as int] == Err::<(int, bool), FailureView>(all[i as int]->Err_0@));
                lemma_batch_ends_at(entries, no_skip, i as int);
            }
            let last = left.swap_remove(i);
            assert(last == all[i as int]);
            match last {
                Err(failure) => {
                    return Err(failure);
                },
                Ok(_) => {
                    assert(false);
                },
            }
        }
        i = i + 1;
    }
    assert(entries.take(i as int) =~= entries);
    Ok(failing)
}

} // verus!
