use cign::fix::{EntryState, Event, FixLoop, Instruction, Resolution};

fn started(total: usize) -> FixLoop {
    let mut machine = FixLoop::new(total);
    assert_eq!(
        machine.step(Event::Begin),
        Instruction::Attempt { leaving: None, index: 0 }
    );
    machine
}

#[test]
fn an_empty_batch_is_over_at_once() {
    let mut machine = FixLoop::new(0);
    assert!(!machine.is_finished());
    assert_eq!(machine.step(Event::Begin), Instruction::Finish { leaving: None });
    assert!(machine.is_finished());
    assert!(machine.resolutions().is_empty());
}

#[test]
fn a_fixed_entry_is_left_without_a_prompt() {
    let mut machine = started(1);
    assert_eq!(machine.entry_state(0), EntryState::Running);
    let told = vec![
        machine.step(Event::CommandExited { code: 0 }),
        machine.step(Event::Checked { clean: true }),
    ];
    assert_eq!(
        told,
        vec![
            Instruction::Recheck { index: 0, warn: false },
            Instruction::Finish { leaving: Some(0) },
        ]
    );
    assert!(told.iter().all(|i| !matches!(i, Instruction::AskRetry { .. })));
    assert_eq!(machine.entry_state(0), EntryState::Resolved(Resolution::Fixed));
    assert!(machine.is_finished());
}

#[test]
fn a_declined_entry_had_one_attempt() {
    let mut machine = FixLoop::new(1);
    let told = vec![
        machine.step(Event::Begin),
        machine.step(Event::CommandExited { code: 0 }),
        machine.step(Event::Checked { clean: false }),
        machine.step(Event::Answered { retry: false }),
    ];
    assert_eq!(
        told,
        vec![
            Instruction::Attempt { leaving: None, index: 0 },
            Instruction::Recheck { index: 0, warn: false },
            Instruction::AskRetry { index: 0 },
            Instruction::Finish { leaving: Some(0) },
        ]
    );
    let attempts = told.iter().filter(|i| matches!(i, Instruction::Attempt { .. })).count();
    assert_eq!(attempts, 1);
    assert_eq!(machine.entry_state(0), EntryState::Resolved(Resolution::Declined));
    assert_eq!(machine.resolutions(), &vec![Resolution::Declined]);
    assert_eq!(machine.total(), 1);
    assert!(machine.is_finished());
}

#[test]
fn a_retry_runs_the_command_again() {
    let mut machine = started(1);
    assert_eq!(
        machine.step(Event::CommandExited { code: 1 }),
        Instruction::Recheck { index: 0, warn: true }
    );
    assert_eq!(machine.step(Event::Checked { clean: false }), Instruction::AskRetry { index: 0 });
    assert_eq!(
        machine.step(Event::Answered { retry: true }),
        Instruction::Attempt { leaving: None, index: 0 }
    );
    assert_eq!(machine.entry_state(0), EntryState::Running);
    assert_eq!(
        machine.step(Event::CommandExited { code: 0 }),
        Instruction::Recheck { index: 0, warn: false }
    );
    assert_eq!(
        machine.step(Event::Checked { clean: true }),
        Instruction::Finish { leaving: Some(0) }
    );
    assert_eq!(machine.entry_state(0), EntryState::Resolved(Resolution::Fixed));
}

#[test]
fn a_failing_command_does_not_end_the_visit() {
    let mut machine = started(2);
    assert_eq!(
        machine.step(Event::CommandExited { code: 127 }),
        Instruction::Recheck { index: 0, warn: true }
    );
    assert!(!machine.is_finished());
    assert_eq!(machine.entry_state(0), EntryState::Running);
}

#[test]
fn entries_are_visited_in_order() {
    let mut machine = started(3);
    assert_eq!(machine.entry_state(1), EntryState::Pending);
    machine.step(Event::CommandExited { code: 0 });
    assert_eq!(
        machine.step(Event::Checked { clean: true }),
        Instruction::Attempt { leaving: Some(0), index: 1 }
    );
    assert_eq!(machine.entry_state(0), EntryState::Resolved(Resolution::Fixed));
    assert_eq!(machine.entry_state(1), EntryState::Running);
    assert_eq!(machine.entry_state(2), EntryState::Pending);
    machine.step(Event::CommandExited { code: 0 });
    machine.step(Event::Checked { clean: false });
    assert_eq!(
        machine.step(Event::Answered { retry: false }),
        Instruction::Attempt { leaving: Some(1), index: 2 }
    );
    machine.step(Event::CommandExited { code: 0 });
    assert_eq!(
        machine.step(Event::Checked { clean: true }),
        Instruction::Finish { leaving: Some(2) }
    );
    assert_eq!(
        machine.resolutions(),
        &vec![Resolution::Fixed, Resolution::Declined, Resolution::Fixed]
    );
    assert!(machine.is_finished());
    assert_eq!(machine.entry_state(3), EntryState::Pending);
}

#[test]
fn a_failed_look_ends_the_batch() {
    let mut machine = started(2);
    machine.step(Event::CommandExited { code: 0 });
    assert_eq!(machine.step(Event::Failed { ends: true }), Instruction::Abort);
    assert!(machine.is_finished());
    assert_eq!(machine.entry_state(0), EntryState::Pending);
    assert!(machine.resolutions().is_empty());

    let mut machine = started(2);
    assert_eq!(machine.step(Event::Failed { ends: true }), Instruction::Abort);
    assert!(machine.is_finished());
}

#[test]
fn what_is_not_awaited_changes_nothing() {
    let mut machine = FixLoop::new(1);
    assert_eq!(machine.step(Event::Checked { clean: true }), Instruction::Stay);
    assert_eq!(machine.step(Event::Failed { ends: true }), Instruction::Stay);
    assert_eq!(machine.entry_state(0), EntryState::Pending);
    machine.step(Event::Begin);
    assert_eq!(machine.step(Event::Begin), Instruction::Stay);
    assert_eq!(machine.step(Event::Answered { retry: true }), Instruction::Stay);
    assert_eq!(machine.entry_state(0), EntryState::Running);
    machine.step(Event::CommandExited { code: 0 });
    machine.step(Event::Checked { clean: true });
    assert!(machine.is_finished());
    assert_eq!(machine.step(Event::Begin), Instruction::Stay);
    assert_eq!(machine.step(Event::CommandExited { code: 0 }), Instruction::Stay);
    assert_eq!(machine.resolutions(), &vec![Resolution::Fixed]);
}

#[test]
fn a_failure_that_is_passed_over_leaves_the_entry() {
    let mut machine = started(2);
    assert_eq!(
        machine.step(Event::Failed { ends: false }),
        Instruction::Attempt { leaving: Some(0), index: 1 }
    );
    assert_eq!(machine.entry_state(0), EntryState::Resolved(Resolution::Skipped));
    assert_eq!(machine.entry_state(1), EntryState::Running);
    machine.step(Event::CommandExited { code: 0 });
    assert_eq!(
        machine.step(Event::Failed { ends: false }),
        Instruction::Finish { leaving: Some(1) }
    );
    assert!(machine.is_finished());
    assert_eq!(machine.resolutions(), &vec![Resolution::Skipped, Resolution::Skipped]);
}
