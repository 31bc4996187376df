//! The verdict on one repository: what was found, whether it is clean, and
//! how it is described to the user.

use crate::error::{outcome, Failure, FailureView};
use crate::repo::{
    branch_upstream_name, buf_text, error_text, graph_ahead_behind, head, is_branch,
    reference_name, refname_to_id, repo_state, resolve, status_entries, target,
};
use crate::text::{decimal, decimal_string, lemma_decimal_starts_with_digit};
use git2::Repository;
use vstd::prelude::*;

verus! {

/// The lifecycle state of a repository: clean, or in the middle of an
/// operation that was started and not finished.
#[derive(Clone, Copy, Debug, PartialEq, Eq, Structural)]
pub enum RepoState {
    Clean,
    Merge,
    Revert,
    RevertSequence,
    CherryPick,
    CherryPickSequence,
    Bisect,
    Rebase,
    RebaseInteractive,
    RebaseMerge,
    ApplyMailbox,
    ApplyMailboxOrRebase,
}

impl RepoState {
    /// The name under which the state is shown.
    pub open spec fn name_spec(self) -> Seq<char> {
        match self {
            RepoState::Clean => "Clean"@,
            RepoState::Merge => "Merge"@,
            RepoState::Revert => "Revert"@,
            RepoState::RevertSequence => "RevertSequence"@,
            RepoState::CherryPick => "CherryPick"@,
            RepoState::CherryPickSequence => "CherryPickSequence"@,
            RepoState::Bisect => "Bisect"@,
            RepoState::Rebase => "Rebase"@,
            RepoState::RebaseInteractive => "RebaseInteractive"@,
            RepoState::RebaseMerge => "RebaseMerge"@,
            RepoState::ApplyMailbox => "ApplyMailbox"@,
            RepoState::ApplyMailboxOrRebase => "ApplyMailboxOrRebase"@,
        }
    }

    /// The name under which the state is shown.
    pub fn name(&self) -> (s: &'static str)
        ensures
            s@ == self.name_spec(),
    {
        match self {
            RepoState::Clean => "Clean",
            RepoState::Merge => "Merge",
            RepoState::Revert => "Revert",
            RepoState::RevertSequence => "RevertSequence",
            RepoState::CherryPick => "CherryPick",
            RepoState::CherryPickSequence => "CherryPickSequence",
            RepoState::Bisect => "Bisect",
            RepoState::Rebase => "Rebase",
            RepoState::RebaseInteractive => "RebaseInteractive",
            RepoState::RebaseMerge => "RebaseMerge",
            RepoState::ApplyMailbox => "ApplyMailbox",
            RepoState::ApplyMailboxOrRebase => "ApplyMailboxOrRebase",
        }
    }
}

/// What checking one repository found.
#[derive(Clone, Copy, Debug, PartialEq, Eq, Structural)]
pub struct GitCheckResult {
    pub state: RepoState,
    /// How many entries the working tree's status lists, ignored files left out.
    pub uncommitted_count: usize,
    /// How many commits ahead of upstream.
    pub commits_ahead: usize,
    /// How many commits behind upstream.
    pub commits_behind: usize,
}

/// The fact "`n` `what`", or nothing when `n` is zero.
pub open spec fn count_fact(n: nat, what: Seq<char>) -> Seq<Seq<char>> {
    if n == 0 {
        Seq::empty()
    } else {
        seq![decimal(n) + what]
    }
}

/// The fact that names an unfinished operation, or nothing for a clean state.
pub open spec fn state_fact(state: RepoState) -> Seq<Seq<char>> {
    if state == RepoState::Clean {
        Seq::empty()
    } else {
        seq!["unclean state "@ + state.name_spec()]
    }
}

impl GitCheckResult {
    /// No unfinished business: a clean state, nothing uncommitted, and
    /// neither ahead of upstream nor behind it.
    pub open spec fn all_good(self) -> bool {
        &&& self.state == RepoState::Clean
        &&& self.uncommitted_count == 0
        &&& self.commits_ahead == 0
        &&& self.commits_behind == 0
    }

    /// The facts of a result that is not clean, in the order in which they
    /// are shown: state, uncommitted changes, ahead, behind.
    pub open spec fn facts(self) -> Seq<Seq<char>> {
        state_fact(self.state) + count_fact(
            self.uncommitted_count as nat,
            " uncommitted change(s)"@,
        ) + count_fact(self.commits_ahead as nat, " commit(s) ahead"@) + count_fact(
            self.commits_behind as nat,
            " commit(s) behind"@,
        )
    }

    /// The description of the result: the single fact "all good", or the
    /// facts that keep it from being so.
    pub open spec fn description(self) -> Seq<Seq<char>> {
        if self.all_good() {
            seq!["all good"@]
        } else {
            self.facts()
        }
    }

    /// True if no unfinished business was detected.
    pub fn is_all_good(&self) -> (good: bool)
        ensures
            good == self.all_good(),
    {
        self.state == RepoState::Clean && self.uncommitted_count == 0 && self.commits_ahead == 0
            && self.commits_behind == 0
    }

    /// Returns a list of facts about the result.
    pub fn describe(&self) -> (facts: Vec<String>)
        ensures
            facts.deep_view() == self.description(),
    {
        let mut ret: Vec<String> = Vec::new();
        if self.is_all_good() {
            ret.push(String::from_str("all good"));
            assert(ret.deep_view() =~= self.description());
            return ret;
        }
        if self.state != RepoState::Clean {
            let mut fact = String::from_str("unclean state ");
            fact.append(self.state.name());
            ret.push(fact);
        }
        assert(ret.deep_view() =~= state_fact(self.state));
        push_count(&mut ret, self.uncommitted_count, " uncommitted change(s)");
        push_count(&mut ret, self.commits_ahead, " commit(s) ahead");
        push_count(&mut ret, self.commits_behind, " commit(s) behind");
        ret
    }
}

fn push_count(facts: &mut Vec<String>, n: usize, what: &str)
    ensures
        final(facts).deep_view() == old(facts).deep_view() + count_fact(n as nat, what@),
{
    if n > 0 {
        let mut fact = decimal_string(n);
        fact.append(what);
        facts.push(fact);
    }
    assert(facts.deep_view() =~= old(facts).deep_view() + count_fact(n as nat, what@));
}

/// What checking one tracked entry found: a repository's result, or,
/// for a custom entry, whether its check command passed.
#[derive(Clone, Copy, Debug, PartialEq, Eq, Structural)]
pub enum CheckResult {
    Repository(GitCheckResult),
    Custom { passed: bool },
}

impl CheckResult {
    /// No unfinished business: a repository that is all good, or a custom
    /// entry whose check passed.
    pub open spec fn all_good(self) -> bool {
        match self {
            CheckResult::Repository(found) => found.all_good(),
            CheckResult::Custom { passed } => passed,
        }
    }

    /// The description of the result: the single fact "all good", or the
    /// facts that keep it from being so.
    pub open spec fn description(self) -> Seq<Seq<char>> {
        match self {
            CheckResult::Repository(found) => found.description(),
            CheckResult::Custom { passed } => if passed {
                seq!["all good"@]
            } else {
                seq!["check failed"@]
            },
        }
    }

    /// True if no unfinished business was detected.
    pub fn is_all_good(&self) -> (good: bool)
        ensures
            good == self.all_good(),
    {
        match self {
            CheckResult::Repository(found) => found.is_all_good(),
            CheckResult::Custom { passed } => *passed,
        }
    }

    /// Returns a list of facts about the result.
    pub fn describe(&self) -> (facts: Vec<String>)
        ensures
            facts.deep_view() == self.description(),
    {
        match self {
            CheckResult::Repository(found) => found.describe(),
            CheckResult::Custom { passed } => {
                let mut facts: Vec<String> = Vec::new();
                if *passed {
                    facts.push(String::from_str("all good"));
                } else {
                    facts.push(String::from_str("check failed"));
                }
                assert(facts.deep_view() =~= self.description());
                facts
            },
        }
    }
}

/// What reading HEAD and its upstream brought: how far the reading got, and
/// what it found there.
#[derive(Clone, Debug, PartialEq, Eq)]
pub enum HeadProbe {
    /// HEAD could not be read: the repository has no commit yet.
    Unborn,
    /// HEAD was read and could not be resolved to a direct reference.
    Dangling { detail: String },
    /// HEAD resolves to something that is not a branch.
    Detached,
    /// HEAD is a branch that names no commit.
    NoTarget,
    /// HEAD is a branch whose name could not be read.
    NoName,
    /// HEAD is a branch with no upstream configured.
    NoUpstream,
    /// The name of the branch's upstream is not valid UTF-8.
    UndecodableUpstream,
    /// The branch's upstream does not resolve to a commit.
    UpstreamUnresolved { detail: String },
    /// Counting the commits between the branch and its upstream failed.
    GraphFailed { detail: String },
    /// The branch is this far from its upstream.
    Tracking { ahead: usize, behind: usize },
}

/// What was read from one repository.
#[derive(Debug, PartialEq, Eq)]
pub struct RepoProbe {
    pub state: RepoState,
    /// The number of status entries, or why they could not be listed.
    pub statuses: Result<usize, String>,
    pub head: HeadProbe,
}

/// The distance from upstream that a reading of HEAD stands for, where it
/// stands for one: none for a detached HEAD and for a branch without
/// upstream, whatever the commit graph holds.
pub open spec fn divergence(head: HeadProbe) -> Result<(usize, usize), FailureView> {
    match head {
        HeadProbe::Unborn => Ok((0usize, 0usize)),
        HeadProbe::Dangling { detail } => Err(FailureView::Query { detail: detail@ }),
        HeadProbe::Detached => Ok((0usize, 0usize)),
        HeadProbe::NoTarget => Err(FailureView::UnresolvedHead),
        HeadProbe::NoName => Err(FailureView::UnnamedBranch),
        HeadProbe::NoUpstream => Ok((0usize, 0usize)),
        HeadProbe::UndecodableUpstream => Err(FailureView::UndecodableUpstream),
        HeadProbe::UpstreamUnresolved { detail } => Err(FailureView::Query { detail: detail@ }),
        HeadProbe::GraphFailed { detail } => Err(FailureView::Query { detail: detail@ }),
        HeadProbe::Tracking { ahead, behind } => Ok((ahead, behind)),
    }
}

/// The result that a reading amounts to. A status list that could not be
/// read fails first. Otherwise the result holds the state, the number of
/// status entries and the distance from upstream; without a commit the
/// distance is none, and the number of status entries stays what it is.
pub open spec fn verdict(probe: RepoProbe) -> Result<GitCheckResult, FailureView> {
    match probe.statuses {
        Err(detail) => Err(FailureView::Query { detail: detail@ }),
        Ok(count) => match divergence(probe.head) {
            Err(error) => Err(error),
            Ok((ahead, behind)) => Ok(
                GitCheckResult {
                    state: probe.state,
                    uncommitted_count: count,
                    commits_ahead: ahead,
                    commits_behind: behind,
                },
            ),
        },
    }
}

/// Assembles what was read from a repository into the result of the check,
/// or into the error that the reading ran into.
pub fn evaluate(probe: RepoProbe) -> (r: Result<GitCheckResult, Failure>)
    ensures
        outcome(r) == verdict(probe),
{
    let count = match probe.statuses {
        Ok(count) => count,
        Err(detail) => {
            return Err(Failure::Query { detail });
        },
    };
    let state = probe.state;
    let clean = GitCheckResult { state, uncommitted_count: count, commits_ahead: 0, commits_behind: 0 };
    match probe.head {
        HeadProbe::Unborn => Ok(clean),
        HeadProbe::Dangling { detail } => Err(Failure::Query { detail }),
        HeadProbe::Detached => Ok(clean),
        HeadProbe::NoTarget => Err(Failure::UnresolvedHead),
        HeadProbe::NoName => Err(Failure::UnnamedBranch),
        HeadProbe::NoUpstream => Ok(clean),
        HeadProbe::UndecodableUpstream => Err(Failure::UndecodableUpstream),
        HeadProbe::UpstreamUnresolved { detail } => Err(Failure::Query { detail }),
        HeadProbe::GraphFailed { detail } => Err(Failure::Query { detail }),
        HeadProbe::Tracking { ahead, behind } => Ok(
            GitCheckResult {
                state,
                uncommitted_count: count,
                commits_ahead: ahead,
                commits_behind: behind,
            },
        ),
    }
}

/// Whether status entries of ignored files count as changes.
pub const INCLUDE_IGNORED: bool = false;

/// Reads HEAD and, where it is a branch, how far it is from its upstream.
/// The upstream is looked up for a branch only, and the commit graph is
/// walked only where an upstream was found.
pub fn probe_head(repo: &Repository) -> (probe: HeadProbe) {
    let head_ref = match head(repo) {
        Ok(h) => h,
        Err(_) => {
            return HeadProbe::Unborn;
        },
    };
    let direct = match resolve(&head_ref) {
        Ok(d) => d,
        Err(e) => {
            return HeadProbe::Dangling { detail: error_text(&e) };
        },
    };
    if !is_branch(&direct) {
        return HeadProbe::Detached;
    }
    let head_oid = match target(&direct) {
        Some(oid) => oid,
        None => {
            return HeadProbe::NoTarget;
        },
    };
    let branch_name = match reference_name(&direct) {
        Ok(name) => name,
        Err(_) => {
            return HeadProbe::NoName;
        },
    };
    let upstream = match branch_upstream_name(repo, branch_name.as_str()) {
        Ok(buf) => buf,
        Err(_) => {
            return HeadProbe::NoUpstream;
        },
    };
    let upstream_name = match buf_text(&upstream) {
        Ok(name) => name,
        Err(_) => {
            return HeadProbe::UndecodableUpstream;
        },
    };
    let upstream_oid = match refname_to_id(repo, upstream_name.as_str()) {
        Ok(oid) => oid,
        Err(e) => {
            return HeadProbe::UpstreamUnresolved { detail: error_text(&e) };
        },
    };
    match graph_ahead_behind(repo, head_oid, upstream_oid) {
        Ok((ahead, behind)) => HeadProbe::Tracking { ahead, behind },
        Err(e) => HeadProbe::GraphFailed { detail: error_text(&e) },
    }
}

/// Reads from a repository what its check rests on: its state, the number
/// of status entries with ignored files left out, and HEAD.
pub fn probe_repo(repo: &Repository) -> (probe: RepoProbe) {
    let state = repo_state(repo);
    let statuses = match status_entries(repo, INCLUDE_IGNORED) {
        Ok(entries) => Ok(entries.len()),
        Err(e) => Err(error_text(&e)),
    };
    RepoProbe { state, statuses, head: probe_head(repo) }
}

/// Checks a repository: reads it with [`probe_repo`] and assembles what was
/// read with [`evaluate`]. Which result comes depends on what is on disk;
/// whatever comes is the verdict on some reading.
pub fn check_repo(repo: &Repository) -> (r: Result<GitCheckResult, Failure>)
    ensures
        exists|probe: RepoProbe| outcome(r) == verdict(probe),
{
    let probe = probe_repo(repo);
    let ghost read = probe;
    let r = evaluate(probe);
    assert(outcome(r) == verdict(read));
    r
}

/// A result with a clean state, nothing uncommitted and no distance from
/// upstream is all good, and is described by the one fact "all good".
pub proof fn lemma_clean_is_all_good(result: GitCheckResult)
    requires
        result.state == RepoState::Clean,
        result.uncommitted_count == 0,
        result.commits_ahead == 0,
        result.commits_behind == 0,
    ensures
        result.all_good(),
        result.description() == seq!["all good"@],
{
}

/// The fact "`n` `what`" never starts with the letter a.
proof fn lemma_count_fact_head(n: nat, what: Seq<char>)
    requires
        n > 0,
    ensures
        count_fact(n, what).len() == 1,
        count_fact(n, what)[0].len() > 0,
        count_fact(n, what)[0][0] != 'a',
{
    lemma_decimal_starts_with_digit(n);
}

/// A result is described by the one fact "all good" if and only if it is
/// all good: the facts of a result that is not never read so.
pub proof fn lemma_all_good_iff_described_so(result: GitCheckResult)
    ensures
        result.description() == seq!["all good"@] <==> result.all_good(),
{
    if !result.all_good() {
        reveal_strlit("all good");
        reveal_strlit("unclean state ");
        let facts = result.facts();
        let uncommitted = count_fact(result.uncommitted_count as nat, " uncommitted change(s)"@);
        let ahead = count_fact(result.commits_ahead as nat, " commit(s) ahead"@);
        let behind = count_fact(result.commits_behind as nat, " commit(s) behind"@);
        assert(facts.len() > 0 && facts[0].len() > 0 && facts[0][0] != 'a') by {
            if result.state != RepoState::Clean {
                assert(facts[0] == "unclean state "@ + result.state.name_spec());
                assert(facts[0][0] == 'u');
            } else if result.uncommitted_count > 0 {
                lemma_count_fact_head(
                    result.uncommitted_count as nat,
                    " uncommitted change(s)"@,
                );
                assert(facts[0] == uncommitted[0]);
            } else if result.commits_ahead > 0 {
                lemma_count_fact_head(result.commits_ahead as nat, " commit(s) ahead"@);
                assert(facts[0] == ahead[0]);
            } else {
                lemma_count_fact_head(result.commits_behind as nat, " commit(s) behind"@);
                assert(facts[0] == behind[0]);
            }
        }
        assert("all good"@[0] == 'a');
        if facts == seq!["all good"@] {
            assert(facts[0] == "all good"@);
        }
    }
}

/// What holds of a repository's result holds of every result: it is
/// described by the one fact "all good" if and only if it is all good.
pub proof fn lemma_check_all_good_iff_described_so(result: CheckResult)
    ensures
        result.description() == seq!["all good"@] <==> result.all_good(),
{
    match result {
        CheckResult::Repository(found) => {
            lemma_all_good_iff_described_so(found);
        },
        CheckResult::Custom { passed } => {
            if !passed {
                reveal_strlit("all good");
                reveal_strlit("check failed");
                assert("check failed"@[0] == 'c');
                assert("all good"@[0] == 'a');
                if result.description() == seq!["all good"@] {
                    assert(result.description()[0] == "all good"@);
                }
            }
        },
    }
}

/// Two readings say the same: the same state, the same status entries or
/// the same reason why there are none, and the same about HEAD.
pub open spec fn same_reading(first: RepoProbe, second: RepoProbe) -> bool {
    &&& first.state == second.state
    &&& match (first.statuses, second.statuses) {
        (Ok(m), Ok(n)) => m == n,
        (Err(d), Err(e)) => d@ == e@,
        _ => false,
    }
    &&& match (first.head, second.head) {
        (HeadProbe::Unborn, HeadProbe::Unborn) => true,
        (HeadProbe::Dangling { detail: d }, HeadProbe::Dangling { detail: e }) => d@ == e@,
        (HeadProbe::Detached, HeadProbe::Detached) => true,
        (HeadProbe::NoTarget, HeadProbe::NoTarget) => true,
        (HeadProbe::NoName, HeadProbe::NoName) => true,
        (HeadProbe::NoUpstream, HeadProbe::NoUpstream) => true,
        (HeadProbe::UndecodableUpstream, HeadProbe::UndecodableUpstream) => true,
        (
            HeadProbe::UpstreamUnresolved { detail: d },
            HeadProbe::UpstreamUnresolved { detail: e },
        ) => d@ == e@,
        (HeadProbe::GraphFailed { detail: d }, HeadProbe::GraphFailed { detail: e }) => d@ == e@,
        (
            HeadProbe::Tracking { ahead: a, behind: b },
            HeadProbe::Tracking { ahead: c, behind: d },
        ) => a == c && b == d,
        _ => false,
    }
}

/// Checking a repository that has not changed gives the same again: two
/// readings that say the same amount to the same result, field for field,
/// or to the same error.
pub proof fn lemma_same_reading_same_verdict(first: RepoProbe, second: RepoProbe)
    requires
        same_reading(first, second),
    ensures
        verdict(first) == verdict(second),
{
}

/// With HEAD detached the result is neither ahead nor behind, whatever the
/// commit graph holds: the check fails only where the status entries could
/// not be listed, and every result that comes has no distance.
pub proof fn lemma_detached_head_never_diverges(probe: RepoProbe)
    requires
        probe.head is Detached,
    ensures
        divergence(probe.head) == Ok::<(usize, usize), FailureView>((0usize, 0usize)),
        verdict(probe) is Ok <==> probe.statuses is Ok,
        verdict(probe) matches Ok(found) ==> found.commits_ahead == 0 && found.commits_behind == 0,
        probe.statuses matches Ok(count) ==> verdict(probe) == Ok::<GitCheckResult, FailureView>(
            GitCheckResult {
                state: probe.state,
                uncommitted_count: count,
                commits_ahead: 0,
                commits_behind: 0,
            },
        ),
{
}

/// A branch without a configured upstream is no error: the check fails
/// only where the status entries could not be listed, and every result
/// that comes is neither ahead nor behind.
pub proof fn lemma_no_upstream_never_diverges(probe: RepoProbe)
    requires
        probe.head is NoUpstream,
    ensures
        divergence(probe.head) == Ok::<(usize, usize), FailureView>((0usize, 0usize)),
        verdict(probe) is Ok <==> probe.statuses is Ok,
        verdict(probe) matches Ok(found) ==> found.commits_ahead == 0 && found.commits_behind == 0,
        probe.statuses matches Ok(count) ==> verdict(probe) == Ok::<GitCheckResult, FailureView>(
            GitCheckResult {
                state: probe.state,
                uncommitted_count: count,
                commits_ahead: 0,
                commits_behind: 0,
            },
        ),
{
}

} // verus!
