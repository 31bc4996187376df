//! Turning the configured path strings into paths, and finding among them
//! the repositories that have unfinished business.

use crate::error::{outcome, told, Failure, FailureView};
use crate::git::{check_repo, verdict, GitCheckResult, RepoProbe};
use crate::policy::{
    aborts, apply_policy, batch, ends_batch, lemma_batch_best_effort, lemma_batch_ends_at,
    lemma_batch_fail_fast, lemma_batch_keeps_no_more, lemma_batch_of_successes, Step,
};
use crate::repo::{discover, error_text};
use vstd::prelude::*;

verus! {

/// A path string that expansion leaves as it is: it names no variable and
/// does not start with the home directory's shorthand.
pub open spec fn is_literal(dir: Seq<char>) -> bool {
    !dir.contains('$') && (dir.len() == 0 || dir[0] != '~')
}

/// `outcome` is something that expanding `dir` can bring: a path, or a
/// failure that names `dir`. Only a path string that names a variable can
/// fail; for a literal path, the path itself comes and nothing else.
pub open spec fn expansion_of(dir: Seq<char>, outcome: Result<Seq<char>, FailureView>) -> bool {
    &&& outcome matches Err(failure) ==> (failure matches FailureView::Expansion { dir: named, .. }
        && named == dir)
    &&& !dir.contains('$') ==> outcome is Ok
    &&& is_literal(dir) ==> outcome == Ok::<Seq<char>, FailureView>(dir)
}

/// `outcomes` holds, for each path string of `dirs` in order, something
/// that expanding it can bring.
pub open spec fn expansions_of(
    dirs: Seq<Seq<char>>,
    outcomes: Seq<Result<Seq<char>, FailureView>>,
) -> bool {
    &&& outcomes.len() == dirs.len()
    &&& forall|i: int| 0 <= i < dirs.len() ==> expansion_of(dirs[i], #[trigger] outcomes[i])
}

/// A list of paths, or a failure, with each string taken by its characters.
pub open spec fn listed(r: Result<Vec<String>, Failure>) -> Result<Seq<Seq<char>>, FailureView> {
    match r {
        Ok(paths) => Ok(paths.deep_view()),
        Err(failure) => Err(failure@),
    }
}

/// `r` is what resolving `dirs` can bring: what the policy makes of some
/// outcomes that expanding the path strings can have.
pub open spec fn resolves_to(
    dirs: Seq<Seq<char>>,
    no_skip: bool,
    r: Result<Seq<Seq<char>>, FailureView>,
) -> bool {
    exists|outcomes: Seq<Result<Seq<char>, FailureView>>|
        expansions_of(dirs, outcomes) && r == #[trigger] batch(outcomes, no_skip)
}

/// `shellexpand::full`: expands environment variables and a leading `~` in
/// `dir`; on failure, the text of the error. What comes depends on the
/// environment, but for what the crate's source shows: only the lookup of
/// a variable can fail, so a string without `$` expands; and one that
/// neither holds `$` nor starts with `~` comes back as it is.
#[verifier::external_body]
fn expand(dir: &str) -> (r: Result<String, String>)
    ensures
        !dir@.contains('$') ==> r is Ok,
        is_literal(dir@) ==> r is Ok && r->Ok_0@ == dir@,
{
    match shellexpand::full(dir) {
        Ok(path) => Ok(path.into_owned()),
        Err(error) => Err(error.to_string()),
    }
}

/// Expands one path string. A failure names the path string and holds the
/// reason.
pub fn expand_dir(dir: &str) -> (r: Result<String, Failure>)
    ensures
        expansion_of(dir@, told(r)),
{
    match expand(dir) {
        Ok(path) => Ok(path),
        Err(detail) => Err(Failure::Expansion { dir: String::from_str(dir), detail }),
    }
}

/// Returns the expanded directories of `dirs`, in order, with `no_skip`
/// deciding if a failed expansion leaves the directory out or fails the
/// whole operation.
pub fn get_expanded_dirs(dirs: &Vec<String>, no_skip: bool) -> (r: Result<Vec<String>, Failure>)
    ensures
        resolves_to(dirs.deep_view(), no_skip, listed(r)),
{
    let ghost all = dirs.deep_view();
    let ghost mut seen: Seq<Result<Seq<char>, FailureView>> = Seq::empty();
    let mut ret: Vec<String> = Vec::new();
    let mut i: usize = 0;
    assert(ret.deep_view() =~= Seq::<Seq<char>>::empty());
    while i < dirs.len()
        invariant
            i <= dirs.len(),
            all == dirs.deep_view(),
            seen.len() == i,
            forall|j: int| 0 <= j < i ==> expansion_of(all[j], #[trigger] seen[j]),
            batch(seen, no_skip) == Ok::<Seq<Seq<char>>, FailureView>(ret.deep_view()),
        decreases dirs.len() - i,
    {
        let entry = expand_dir(dirs[i].as_str());
        let ghost this = told(entry);
        assert(all[i as int] == dirs[i as int]@);
        assert(seen.push(this).drop_last() =~= seen);
        let ghost kept = ret.deep_view();
        match apply_policy(entry, no_skip) {
            Step::Keep(path) => {
                ret.push(path);
                assert(ret.deep_view() =~= kept.push(path@));
            },
            Step::Skip(_) => {},
            Step::Abort(failure) => {
                proof {
                    let rest = Seq::new(
                        all.len(),
                        |j: int|
                            if j < i {
                                seen[j]
                            } else if j == i {
                                this
                            } else {
                                Ok::<Seq<char>, FailureView>(all[j])
                            },
                    );
                    assert(rest.take(i as int) =~= seen);
                    lemma_batch_ends_at(rest, no_skip, i as int);
                    assert(expansions_of(all, rest));
                    assert(batch(rest, no_skip) == Err::<Seq<Seq<char>>, FailureView>(failure@));
                }
                return Err(failure);
            },
        }
        proof {
            seen = seen.push(this);
        }
        i = i + 1;
    }
    proof {
        assert(expansions_of(all, seen));
        assert(batch(seen, no_skip) == listed(Ok(ret)));
    }
    Ok(ret)
}

/// Resolving yields no more paths than there are path strings, and in
/// fail-fast mode as many.
pub proof fn lemma_resolved_count(
    dirs: Seq<Seq<char>>,
    no_skip: bool,
    r: Result<Seq<Seq<char>>, FailureView>,
)
    requires
        resolves_to(dirs, no_skip, r),
    ensures
        r matches Ok(paths) ==> paths.len() <= dirs.len() && (no_skip ==> paths.len() == dirs.len()),
{
    let outcomes = choose|outcomes: Seq<Result<Seq<char>, FailureView>>|
        expansions_of(dirs, outcomes) && r == #[trigger] batch(outcomes, no_skip);
    lemma_batch_keeps_no_more(outcomes, no_skip);
    if no_skip && r is Ok {
        lemma_batch_fail_fast(outcomes);
    }
}

/// Resolving path strings fails in fail-fast mode only.
pub proof fn lemma_resolving_fails_fast(dirs: Seq<Seq<char>>, no_skip: bool, failure: FailureView)
    requires
        resolves_to(dirs, no_skip, Err(failure)),
    ensures
        no_skip,
        aborts(failure, no_skip),
{
    let outcomes = choose|outcomes: Seq<Result<Seq<char>, FailureView>>|
        expansions_of(dirs, outcomes) && Err::<Seq<Seq<char>>, FailureView>(failure)
            == #[trigger] batch(outcomes, no_skip);
    if !no_skip {
        assert forall|i: int| 0 <= i < outcomes.len() implies (#[trigger] outcomes[i] matches Err(
            f,
        ) ==> f.skippable()) by {
            assert(expansion_of(dirs[i], outcomes[i]));
        }
        lemma_batch_best_effort(outcomes);
    }
}

/// Path strings that are all literal resolve to themselves, in either mode.
pub proof fn lemma_literal_dirs_resolve_to_themselves(
    dirs: Seq<Seq<char>>,
    no_skip: bool,
    r: Result<Seq<Seq<char>>, FailureView>,
)
    requires
        forall|i: int| 0 <= i < dirs.len() ==> is_literal(#[trigger] dirs[i]),
        resolves_to(dirs, no_skip, r),
    ensures
        r == Ok::<Seq<Seq<char>>, FailureView>(dirs),
{
    let outcomes = choose|outcomes: Seq<Result<Seq<char>, FailureView>>|
        expansions_of(dirs, outcomes) && r == #[trigger] batch(outcomes, no_skip);
    assert(outcomes =~= Seq::new(dirs.len(), |i: int| Ok::<Seq<char>, FailureView>(dirs[i])));
    lemma_batch_of_successes(dirs, no_skip);
}

/// A directory together with what checking it brought.
#[derive(Debug, PartialEq, Eq)]
pub struct CheckedDir {
    pub dir: String,
    pub outcome: Result<GitCheckResult, Failure>,
}

/// Each directory of `dirs` with the outcome of its check: a failed check
/// fails the entry, a check that came through keeps directory and result.
pub open spec fn paired(
    dirs: Seq<Seq<char>>,
    checks: Seq<Result<GitCheckResult, FailureView>>,
) -> Seq<Result<(Seq<char>, GitCheckResult), FailureView>> {
    Seq::new(
        dirs.len(),
        |i: int|
            match checks[i] {
                Ok(result) => Ok((dirs[i], result)),
                Err(failure) => Err(failure),
            },
    )
}

/// The directories among `checked` whose result is not all good, in order.
pub open spec fn dirty(checked: Seq<(Seq<char>, GitCheckResult)>) -> Seq<Seq<char>>
    decreases checked.len(),
{
    if checked.len() == 0 {
        Seq::empty()
    } else if checked.last().1.all_good() {
        dirty(checked.drop_last())
    } else {
        dirty(checked.drop_last()).push(checked.last().0)
    }
}

/// The directories that have unfinished business, given the outcome of
/// each directory's check: what the policy keeps of the checks, and of
/// that the directories whose result is not all good.
pub open spec fn failing(
    dirs: Seq<Seq<char>>,
    checks: Seq<Result<GitCheckResult, FailureView>>,
    no_skip: bool,
) -> Result<Seq<Seq<char>>, FailureView> {
    match batch(paired(dirs, checks), no_skip) {
        Ok(kept) => Ok(dirty(kept)),
        Err(failure) => Err(failure),
    }
}

/// `r` is what looking for failing directories among `dirs` brings where
/// resolving them brought `resolved` and checking the resolved directories
/// brought `checks`: the failure to resolve; or, of outcomes that checking
/// each directory can have, what `failing` makes.
pub open spec fn found_failing(
    dirs: Seq<Seq<char>>,
    no_skip: bool,
    resolved: Result<Seq<Seq<char>>, FailureView>,
    checks: Seq<Result<GitCheckResult, FailureView>>,
    r: Result<Seq<Seq<char>>, FailureView>,
) -> bool {
    &&& resolves_to(dirs, no_skip, resolved)
    &&& match resolved {
        Err(failure) => r == Err::<Seq<Seq<char>>, FailureView>(failure),
        Ok(paths) => {
            &&& checks.len() == paths.len()
            &&& forall|i: int| 0 <= i < checks.len() ==> checks_to(paths[i], #[trigger] checks[i])
            &&& r == failing(paths, checks, no_skip)
        },
    }
}

/// `r` is what looking for failing directories among `dirs` can bring:
/// what `found_failing` tells for something that resolving them can bring
/// and for some outcomes that checking the resolved directories can have.
pub open spec fn finds_failing(
    dirs: Seq<Seq<char>>,
    no_skip: bool,
    r: Result<Seq<Seq<char>>, FailureView>,
) -> bool {
    exists|
        resolved: Result<Seq<Seq<char>>, FailureView>,
        checks: Seq<Result<GitCheckResult, FailureView>>,
    | #[trigger]
        found_failing(dirs, no_skip, resolved, checks, r)
}

/// Looking for failing directories never fails in best-effort mode.
pub proof fn lemma_finds_failing_best_effort(
    dirs: Seq<Seq<char>>,
    r: Result<Seq<Seq<char>>, FailureView>,
)
    requires
        finds_failing(dirs, false, r),
    ensures
        r is Ok,
{
    let (resolved, checks) = choose|
        resolved: Result<Seq<Seq<char>>, FailureView>,
        checks: Seq<Result<GitCheckResult, FailureView>>,
    | #[trigger]
        found_failing(dirs, false, resolved, checks, r);
    match resolved {
        Err(failure) => {
            lemma_resolving_fails_fast(dirs, false, failure);
        },
        Ok(paths) => {
            lemma_failing_best_effort(paths, checks);
        },
    }
}

/// The directories of `entries`, in order.
pub open spec fn dirs_of(entries: Seq<CheckedDir>) -> Seq<Seq<char>> {
    Seq::new(entries.len(), |i: int| entries[i].dir@)
}

/// The outcomes of `entries`, in order.
pub open spec fn checks_of(entries: Seq<CheckedDir>) -> Seq<Result<GitCheckResult, FailureView>> {
    Seq::new(entries.len(), |i: int| outcome(entries[i].outcome))
}

/// Opens the repository that `dir` lies in and checks it.
pub fn check_dir(dir: &str) -> (r: Result<GitCheckResult, Failure>)
    ensures
        checks_to(dir@, outcome(r)),
{
    match discover(dir) {
        Ok(repo) => {
            let checked = check_repo(&repo);
            proof {
                // the verdict on a reading is never a failure to find the repository
                let probe = choose|probe: RepoProbe| outcome(checked) == verdict(probe);
                assert(outcome(checked) == verdict(probe));
            }
            checked
        },
        Err(e) => Err(Failure::Discovery { dir: String::from_str(dir), detail: error_text(&e) }),
    }
}

/// `r` is something that checking the directory `dir` can bring: the
/// failure to find a repository there, which names `dir`; or what checking
/// the repository that was found brought, which is the verdict on some
/// reading of it and never a failure to find it.
pub open spec fn checks_to(dir: Seq<char>, r: Result<GitCheckResult, FailureView>) -> bool {
    match r {
        Err(FailureView::Discovery { dir: named, .. }) => named == dir,
        checked => exists|probe: RepoProbe| checked == #[trigger] verdict(probe),
    }
}

/// Checked directories with their results, each path taken by its characters.
pub open spec fn pairs_of(kept: Seq<(String, GitCheckResult)>) -> Seq<(Seq<char>, GitCheckResult)> {
    Seq::new(kept.len(), |i: int| (kept[i].0@, kept[i].1))
}

/// Checked directories with their results, or a failure, by their views.
pub open spec fn kept_of(r: Result<Vec<(String, GitCheckResult)>, Failure>) -> Result<
    Seq<(Seq<char>, GitCheckResult)>,
    FailureView,
> {
    match r {
        Ok(kept) => Ok(pairs_of(kept@)),
        Err(failure) => Err(failure@),
    }
}

/// A check never fails with a failure that a batch may not pass over.
pub proof fn lemma_check_fails_skippably(dir: Seq<char>, r: Result<GitCheckResult, FailureView>)
    requires
        checks_to(dir, r),
    ensures
        r matches Err(failure) ==> failure.skippable(),
{
}

/// Where every directory's outcome is one that checking it can bring,
/// best-effort mode never fails.
pub proof fn lemma_failing_best_effort(
    dirs: Seq<Seq<char>>,
    checks: Seq<Result<GitCheckResult, FailureView>>,
)
    requires
        checks.len() == dirs.len(),
        forall|i: int| 0 <= i < checks.len() ==> checks_to(dirs[i], #[trigger] checks[i]),
    ensures
        failing(dirs, checks, false) is Ok,
{
    let pairs = paired(dirs, checks);
    assert forall|i: int| 0 <= i < pairs.len() implies (#[trigger] pairs[i] matches Err(failure)
        ==> failure.skippable()) by {
        lemma_check_fails_skippably(dirs[i], checks[i]);
    }
    lemma_batch_best_effort(pairs);
}

/// Of directories that were checked, returns those whose check came
/// through, each with its result, in order, with `no_skip` deciding if a
/// check that failed leaves the directory out or fails the whole operation.
pub fn keep_checked(entries: Vec<CheckedDir>, no_skip: bool) -> (r: Result<
    Vec<(String, GitCheckResult)>,
    Failure,
>)
    ensures
        kept_of(r) == batch(paired(dirs_of(entries@), checks_of(entries@)), no_skip),
{
    let ghost all = entries@;
    let mut left = entries;
    let ghost pairs = paired(dirs_of(all), checks_of(all));
    let mut kept: Vec<(String, GitCheckResult)> = Vec::new();
    let mut i: usize = 0;
    assert(pairs_of(kept@) =~= Seq::empty());
    assert(pairs.take(0) =~= Seq::empty());
    while i < left.len()
        invariant
            i <= left.len(),
            left@ == all,
            all == entries@,
            pairs == paired(dirs_of(all), checks_of(all)),
            batch(pairs.take(i as int), no_skip) == Ok::<
                Seq<(Seq<char>, GitCheckResult)>,
                FailureView,
            >(pairs_of(kept@)),
        decreases left.len() - i,
    {
        proof {
            assert(pairs.take(i + 1).drop_last() =~= pairs.take(i as int));
            assert(pairs.take(i + 1).last() == pairs[i as int]);
            assert(checks_of(all)[i as int] == outcome(all[i as int].outcome));
        }
        let ghost before = pairs_of(kept@);
        let mut ends = false;
        match &left[i].outcome {
            Ok(result) => {
                kept.push((left[i].dir.clone(), *result));
                assert(pairs_of(kept@) =~= before.push((all[i as int].dir@, *result)));
            },
            Err(failure) => {
                ends = ends_batch(failure, no_skip);
            },
        }
        if ends {
            proof {
                assert(pairs[i as int] == Err::<(Seq<char>, GitCheckResult), FailureView>(
                    all[i as int].outcome->Err_0@,
                ));
                lemma_batch_ends_at(pairs, no_skip, i as int);
            }
            let last = left.swap_remove(i);
            assert(last == all[i as int]);
            match last.outcome {
                Err(failure) => {
                    return Err(failure);
                },
                Ok(_) => {
                    assert(false);
                },
            }
        }
        i = i + 1;
    }
    assert(pairs.take(i as int) =~= pairs);
    Ok(kept)
}

/// Of directories that were checked, returns those that have unfinished
/// business, with `no_skip` deciding if a check that failed leaves the
/// directory out or fails the whole operation.
pub fn failing_dirs(entries: Vec<CheckedDir>, no_skip: bool) -> (r: Result<Vec<String>, Failure>)
    ensures
        listed(r) == failing(dirs_of(entries@), checks_of(entries@), no_skip),
{
    let kept = match keep_checked(entries, no_skip) {
        Ok(kept) => kept,
        Err(failure) => {
            return Err(failure);
        },
    };
    let ghost all = pairs_of(kept@);
    let mut ret: Vec<String> = Vec::new();
    let mut i: usize = 0;
    assert(ret.deep_view() =~= Seq::<Seq<char>>::empty());
    assert(all.take(0) =~= Seq::empty());
    while i < kept.len()
        invariant
            i <= kept.len(),
            all == pairs_of(kept@),
            ret.deep_view() == dirty(all.take(i as int)),
        decreases kept.len() - i,
    {
        proof {
            assert(all.take(i + 1).drop_last() =~= all.take(i as int));
            assert(all.take(i + 1).last() == all[i as int]);
        }
        let ghost before = ret.deep_view();
        if !kept[i].1.is_all_good() {
            ret.push(kept[i].0.clone());
            assert(ret.deep_view() =~= before.push(all[i as int].0));
        }
        i = i + 1;
    }
    assert(all.take(i as int) =~= all);
    Ok(ret)
}

/// Like `get_expanded_dirs` but with additional checking of each
/// directory's repository, yielding those that have unfinished business.
/// Skipping also applies to checks that fail. In best-effort mode nothing
/// makes this fail.
pub fn get_failing_expanded_dirs(dirs: &Vec<String>, no_skip: bool) -> (r: Result<
    Vec<String>,
    Failure,
>)
    ensures
        finds_failing(dirs.deep_view(), no_skip, listed(r)),
        !no_skip ==> r is Ok,
{
    let resolved = get_expanded_dirs(dirs, no_skip);
    let ghost resolution = listed(resolved);
    let paths = match resolved {
        Ok(paths) => paths,
        Err(failure) => {
            proof {
                lemma_resolving_fails_fast(dirs.deep_view(), no_skip, failure@);
                let none = Seq::<Result<GitCheckResult, FailureView>>::empty();
                assert(found_failing(dirs.deep_view(), no_skip, resolution, none, listed(Err(failure))));
            }
            return Err(failure);
        },
    };
    let ghost all = paths.deep_view();
    let mut entries: Vec<CheckedDir> = Vec::new();
    let mut i: usize = 0;
    while i < paths.len()
        invariant
            i <= paths.len(),
            all == paths.deep_view(),
            entries.len() == i,
            forall|k: int| 0 <= k < i ==> (#[trigger] entries@[k]).dir@ == all[k],
            forall|k: int|
                0 <= k < i ==> checks_to(all[k], outcome((#[trigger] entries@[k]).outcome)),
        decreases paths.len() - i,
    {
        let ghost before = entries@;
        let checked = check_dir(paths[i].as_str());
        entries.push(CheckedDir { dir: paths[i].clone(), outcome: checked });
        proof {
            assert(all[i as int] == paths[i as int]@);
            assert forall|k: int| 0 <= k < i + 1 implies (#[trigger] entries@[k]).dir@ == all[k]
                && checks_to(all[k], outcome(entries@[k].outcome)) by {
                if k < i {
                    assert(entries@[k] == before[k]);
                }
            }
        }
        i = i + 1;
    }
    let ghost checks = checks_of(entries@);
    proof {
        assert(dirs_of(entries@) =~= all);
        assert forall|k: int| 0 <= k < checks.len() implies checks_to(
            all[k],
            #[trigger] checks[k],
        ) by {
            assert(checks[k] == outcome(entries@[k].outcome));
        }
        if !no_skip {
            lemma_failing_best_effort(all, checks);
        }
    }
    let r = failing_dirs(entries, no_skip);
    proof {
        assert(found_failing(dirs.deep_view(), no_skip, resolution, checks, listed(r)));
    }
    r
}

} // verus!
