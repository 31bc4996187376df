use cign::git::{GitCheckResult, RepoState};
use cign::text::{decimal_string, join, signed_decimal_string};

fn result(state: RepoState, uncommitted: usize, ahead: usize, behind: usize) -> GitCheckResult {
    GitCheckResult {
        state,
        uncommitted_count: uncommitted,
        commits_ahead: ahead,
        commits_behind: behind,
    }
}

fn strings(items: &[&str]) -> Vec<String> {
    items.iter().map(|s| s.to_string()).collect()
}

#[test]
fn clean_result_is_all_good() {
    let r = result(RepoState::Clean, 0, 0, 0);
    assert!(r.is_all_good());
    assert_eq!(r.describe(), strings(&["all good"]));
}

#[test]
fn facts_come_in_order() {
    let r = result(RepoState::Merge, 12, 3, 104);
    assert!(!r.is_all_good());
    assert_eq!(
        r.describe(),
        strings(&[
            "unclean state Merge",
            "12 uncommitted change(s)",
            "3 commit(s) ahead",
            "104 commit(s) behind",
        ])
    );
}

#[test]
fn zero_signals_are_left_out() {
    assert_eq!(
        result(RepoState::Clean, 2, 0, 1).describe(),
        strings(&["2 uncommitted change(s)", "1 commit(s) behind"])
    );
    assert_eq!(result(RepoState::Clean, 0, 7, 0).describe(), strings(&["7 commit(s) ahead"]));
    assert_eq!(
        result(RepoState::Rebase, 0, 0, 0).describe(),
        strings(&["unclean state Rebase"])
    );
}

#[test]
fn each_signal_alone_makes_dirty() {
    assert!(!result(RepoState::Bisect, 0, 0, 0).is_all_good());
    assert!(!result(RepoState::Clean, 1, 0, 0).is_all_good());
    assert!(!result(RepoState::Clean, 0, 1, 0).is_all_good());
    assert!(!result(RepoState::Clean, 0, 0, 1).is_all_good());
}

#[test]
fn all_good_exactly_when_described_so() {
    let states = [RepoState::Clean, RepoState::Merge, RepoState::CherryPick];
    for state in states {
        for uncommitted in [0usize, 1, 10] {
            for ahead in [0usize, 3] {
                for behind in [0usize, 99] {
                    let r = result(state, uncommitted, ahead, behind);
                    let described_so = r.describe() == strings(&["all good"]);
                    assert_eq!(described_so, r.is_all_good());
                }
            }
        }
    }
}

#[test]
fn every_state_has_its_name() {
    let named = [
        (RepoState::Clean, "Clean"),
        (RepoState::Merge, "Merge"),
        (RepoState::Revert, "Revert"),
        (RepoState::RevertSequence, "RevertSequence"),
        (RepoState::CherryPick, "CherryPick"),
        (RepoState::CherryPickSequence, "CherryPickSequence"),
        (RepoState::Bisect, "Bisect"),
        (RepoState::Rebase, "Rebase"),
        (RepoState::RebaseInteractive, "RebaseInteractive"),
        (RepoState::RebaseMerge, "RebaseMerge"),
        (RepoState::ApplyMailbox, "ApplyMailbox"),
        (RepoState::ApplyMailboxOrRebase, "ApplyMailboxOrRebase"),
    ];
    for (state, name) in named {
        assert_eq!(state.name(), name);
        assert_eq!(format!("{:?}", state), name);
    }
}

#[test]
fn decimal_of_numbers() {
    assert_eq!(decimal_string(0), "0");
    assert_eq!(decimal_string(9), "9");
    assert_eq!(decimal_string(10), "10");
    assert_eq!(decimal_string(1234567890), "1234567890");
    assert_eq!(decimal_string(usize::MAX), usize::MAX.to_string());
}

#[test]
fn signed_decimal_of_numbers() {
    assert_eq!(signed_decimal_string(0), "0");
    assert_eq!(signed_decimal_string(255), "255");
    assert_eq!(signed_decimal_string(-1), "-1");
    assert_eq!(signed_decimal_string(i32::MAX), "2147483647");
    assert_eq!(signed_decimal_string(i32::MIN), "-2147483648");
}

#[test]
fn join_puts_the_separator_between() {
    assert_eq!(join(&strings(&[]), ", "), "");
    assert_eq!(join(&strings(&["a"]), ", "), "a");
    assert_eq!(join(&strings(&["a", "b", "c"]), " - "), "a - b - c");
    assert_eq!(join(&strings(&["", ""]), "/"), "/");
}
