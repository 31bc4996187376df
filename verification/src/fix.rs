//! The loop that takes the user through the failing entries one by one:
//! run the remediation command, look again, and ask whether to try once
//! more. The loop itself runs where commands can be run and questions
//! asked; here stand its decisions, as a machine that is told what
//! happened and says what to do next.

use vstd::prelude::*;

verus! {

/// How an entry was left.
#[derive(Clone, Copy, Debug, PartialEq, Eq, Structural)]
pub enum Resolution {
    /// The entry was found clean after a remediation attempt.
    Fixed,
    /// The entry was still failing and the user declined to retry.
    Declined,
    /// The entry could not be opened or looked at, and was passed over.
    Skipped,
}

/// Where an entry stands in the batch.
#[derive(Clone, Copy, Debug, PartialEq, Eq, Structural)]
pub enum EntryState {
    /// Not visited yet.
    Pending,
    /// Being visited: a remediation attempt was started and the entry is
    /// not left yet.
    Running,
    /// Left, fixed or given up for now.
    Resolved(Resolution),
}

/// What the machine waits to be told.
#[derive(Clone, Copy, Debug, PartialEq, Eq, Structural)]
pub enum Waiting {
    /// That the batch begins.
    Start,
    /// That the remediation command has returned.
    Command,
    /// What looking at the entry again has found.
    Check,
    /// Whether the user wants to retry.
    Answer,
    /// Nothing: the batch is over.
    Nothing,
}

/// What happened.
#[derive(Clone, Copy, Debug, PartialEq, Eq, Structural)]
pub enum Event {
    /// The batch begins.
    Begin,
    /// The remediation command returned with this exit status.
    CommandExited { code: i32 },
    /// The entry was looked at again, and was found clean or not.
    Checked { clean: bool },
    /// The user answered the retry prompt.
    Answered { retry: bool },
    /// The entry could not be opened or looked at; `ends` says whether
    /// that failure ends the batch or the entry is passed over.
    Failed { ends: bool },
}

/// What to do next. An entry is named by its index in the batch.
#[derive(Clone, Copy, Debug, PartialEq, Eq, Structural)]
pub enum Instruction {
    /// Print the leaving line of the entry `leaving`, if there is one;
    /// change into the directory of the entry `index`, print its fixing
    /// line and run the remediation command there.
    Attempt { leaving: Option<usize>, index: usize },
    /// Log a warning if `warn`, for the command's exit status; then look at
    /// the entry again.
    Recheck { index: usize, warn: bool },
    /// Show the user what the entry still fails on and ask whether to retry.
    AskRetry { index: usize },
    /// Print the leaving line of the entry `leaving`, if there is one, and
    /// go back to the directory in which the batch began: the batch is over.
    Finish { leaving: Option<usize> },
    /// Go back to the directory in which the batch began and hand on the
    /// failure that was told last: the batch is over.
    Abort,
    /// Nothing: the event was not awaited.
    Stay,
}

/// The machine: how many entries the batch has, which one is being
/// visited, what is awaited, and how the entries before it were left.
#[derive(Debug)]
pub struct FixLoop {
    total: usize,
    current: usize,
    waiting: Waiting,
    resolutions: Vec<Resolution>,
}

/// The machine as a value of specifications.
pub struct FixLoopView {
    pub total: usize,
    pub current: usize,
    pub waiting: Waiting,
    pub resolutions: Seq<Resolution>,
}

impl View for FixLoop {
    type V = FixLoopView;

    closed spec fn view(&self) -> FixLoopView {
        FixLoopView {
            total: self.total,
            current: self.current,
            waiting: self.waiting,
            resolutions: self.resolutions@,
        }
    }
}

impl FixLoopView {
    /// A machine that has not begun a batch of `total` entries.
    pub open spec fn fresh(total: usize) -> FixLoopView {
        FixLoopView { total, current: 0, waiting: Waiting::Start, resolutions: Seq::empty() }
    }

    /// The entries before the current one are left, each with its
    /// resolution; an entry is being visited only while something about it
    /// is awaited.
    pub open spec fn wf(self) -> bool {
        &&& self.current <= self.total
        &&& self.resolutions.len() == self.current
        &&& self.waiting == Waiting::Start ==> self.current == 0
        &&& (self.waiting == Waiting::Command || self.waiting == Waiting::Check || self.waiting
            == Waiting::Answer) ==> self.current < self.total
    }

    /// Whether the batch is over.
    pub open spec fn finished(self) -> bool {
        self.waiting == Waiting::Nothing
    }

    /// Where the entry `index` stands.
    pub open spec fn entry_state(self, index: int) -> EntryState {
        if 0 <= index < self.current && index < self.resolutions.len() {
            EntryState::Resolved(self.resolutions[index])
        } else if index == self.current && (self.waiting == Waiting::Command || self.waiting
            == Waiting::Check || self.waiting == Waiting::Answer) {
            EntryState::Running
        } else {
            EntryState::Pending
        }
    }

    /// Goes on to the current entry, after leaving the entry `leaving`: a
    /// first attempt on it, or the end of the batch where none is left.
    pub open spec fn enter(self, leaving: Option<usize>) -> (FixLoopView, Instruction) {
        if self.current < self.total {
            (
                FixLoopView { waiting: Waiting::Command, ..self },
                Instruction::Attempt { leaving, index: self.current },
            )
        } else {
            (FixLoopView { waiting: Waiting::Nothing, ..self }, Instruction::Finish { leaving })
        }
    }

    /// Leaves the current entry with the resolution `how` and goes on to the next.
    pub open spec fn resolve(self, how: Resolution) -> (FixLoopView, Instruction) {
        FixLoopView {
            current: (self.current + 1) as usize,
            resolutions: self.resolutions.push(how),
            ..self
        }.enter(Some(self.current))
    }

    /// The machine after the current entry could not be opened or looked
    /// at: the batch is over where that ends it; else the entry is passed
    /// over and the next one entered.
    pub open spec fn fail(self, ends: bool) -> (FixLoopView, Instruction) {
        if ends {
            (FixLoopView { waiting: Waiting::Nothing, ..self }, Instruction::Abort)
        } else {
            self.resolve(Resolution::Skipped)
        }
    }

    /// The machine after `event`, and what is to be done.
    ///
    /// A command that returns is followed by a look at the entry, whatever
    /// its exit status. An entry found clean is left at once. One found
    /// failing leads to the retry prompt; a retry runs the command again,
    /// a refusal leaves the entry. A failure to open or look at the entry
    /// ends the batch or passes the entry over, as the failure says. An
    /// event that is not awaited changes nothing.
    pub open spec fn step(self, event: Event) -> (FixLoopView, Instruction) {
        match (self.waiting, event) {
            (Waiting::Start, Event::Begin) => self.enter(None),
            (Waiting::Command, Event::CommandExited { code }) => (
                FixLoopView { waiting: Waiting::Check, ..self },
                Instruction::Recheck { index: self.current, warn: code != 0 },
            ),
            (Waiting::Check, Event::Checked { clean }) => if clean {
                self.resolve(Resolution::Fixed)
            } else {
                (
                    FixLoopView { waiting: Waiting::Answer, ..self },
                    Instruction::AskRetry { index: self.current },
                )
            },
            (Waiting::Answer, Event::Answered { retry }) => if retry {
                (
                    FixLoopView { waiting: Waiting::Command, ..self },
                    Instruction::Attempt { leaving: None, index: self.current },
                )
            } else {
                self.resolve(Resolution::Declined)
            },
            (Waiting::Command, Event::Failed { ends }) => self.fail(ends),
            (Waiting::Check, Event::Failed { ends }) => self.fail(ends),
            _ => (self, Instruction::Stay),
        }
    }

    /// The machine after the events of `events`, one after the other.
    pub open spec fn run(self, events: Seq<Event>) -> FixLoopView
        decreases events.len(),
    {
        if events.len() == 0 {
            self
        } else {
            self.run(events.drop_last()).step(events.last()).0
        }
    }

    /// What is to be done after each event of `events`, in order.
    pub open spec fn instructions(self, events: Seq<Event>) -> Seq<Instruction>
        decreases events.len(),
    {
        if events.len() == 0 {
            Seq::empty()
        } else {
            self.instructions(events.drop_last()).push(
                self.run(events.drop_last()).step(events.last()).1,
            )
        }
    }
}

impl FixLoop {
    /// The machine's invariant holds.
    pub open spec fn wf(&self) -> bool {
        self@.wf()
    }

    /// A machine for a batch of `total` entries, before it begins.
    pub fn new(total: usize) -> (machine: FixLoop)
        ensures
            machine@ == FixLoopView::fresh(total),
            machine.wf(),
    {
        FixLoop { total, current: 0, waiting: Waiting::Start, resolutions: Vec::new() }
    }

    /// The number of entries of the batch.
    pub fn total(&self) -> (n: usize)
        ensures
            n == self@.total,
    {
        self.total
    }

    /// Whether the batch is over.
    pub fn is_finished(&self) -> (over: bool)
        ensures
            over == self@.finished(),
    {
        self.waiting == Waiting::Nothing
    }

    /// How the entries that were left were left, in the order of the batch.
    pub fn resolutions(&self) -> (left: &Vec<Resolution>)
        ensures
            left@ == self@.resolutions,
    {
        &self.resolutions
    }

    /// Where the entry `index` stands.
    pub fn entry_state(&self, index: usize) -> (state: EntryState)
        requires
            self.wf(),
        ensures
            state == self@.entry_state(index as int),
    {
        if index < self.current {
            EntryState::Resolved(self.resolutions[index])
        } else if index == self.current && (self.waiting == Waiting::Command || self.waiting
            == Waiting::Check || self.waiting == Waiting::Answer) {
            EntryState::Running
        } else {
            EntryState::Pending
        }
    }

    fn enter(&mut self, leaving: Option<usize>) -> (instruction: Instruction)
        requires
            old(self)@.current <= old(self)@.total,
        ensures
            (final(self)@, instruction) == old(self)@.enter(leaving),
    {
        if self.current < self.total {
            self.waiting = Waiting::Command;
            Instruction::Attempt { leaving, index: self.current }
        } else {
            self.waiting = Waiting::Nothing;
            Instruction::Finish { leaving }
        }
    }

    fn resolve(&mut self, how: Resolution) -> (instruction: Instruction)
        requires
            old(self)@.current < old(self)@.total,
        ensures
            (final(self)@, instruction) == old(self)@.resolve(how),
    {
        let left = self.current;
        self.resolutions.push(how);
        self.current = self.current + 1;
        self.enter(Some(left))
    }

    fn fail(&mut self, ends: bool) -> (instruction: Instruction)
        requires
            old(self)@.current < old(self)@.total,
        ensures
            (final(self)@, instruction) == old(self)@.fail(ends),
    {
        if ends {
            self.waiting = Waiting::Nothing;
            Instruction::Abort
        } else {
            self.resolve(Resolution::Skipped)
        }
    }

    /// Tells the machine what happened. Returns what is to be done next.
    pub fn step(&mut self, event: Event) -> (instruction: Instruction)
        requires
            old(self).wf(),
        ensures
            (final(self)@, instruction) == old(self)@.step(event),
            final(self).wf(),
    {
        proof {
            lemma_step_keeps_wf(self@, event);
        }
        match (self.waiting, event) {
            (Waiting::Start, Event::Begin) => self.enter(None),
            (Waiting::Command, Event::CommandExited { code }) => {
                self.waiting = Waiting::Check;
                Instruction::Recheck { index: self.current, warn: code != 0 }
            },
            (Waiting::Check, Event::Checked { clean }) => {
                if clean {
                    self.resolve(Resolution::Fixed)
                } else {
                    self.waiting = Waiting::Answer;
                    Instruction::AskRetry { index: self.current }
                }
            },
            (Waiting::Answer, Event::Answered { retry }) => {
                if retry {
                    self.waiting = Waiting::Command;
                    Instruction::Attempt { leaving: None, index: self.current }
                } else {
                    self.resolve(Resolution::Declined)
                }
            },
            (Waiting::Command, Event::Failed { ends }) => self.fail(ends),
            (Waiting::Check, Event::Failed { ends }) => self.fail(ends),
            _ => Instruction::Stay,
        }
    }
}

/// Every step keeps the machine's invariant and the size of the batch, and
/// names in its instruction only entries of the batch.
pub proof fn lemma_step_keeps_wf(machine: FixLoopView, event: Event)
    requires
        machine.wf(),
    ensures
        machine.step(event).0.wf(),
        machine.step(event).0.total == machine.total,
        match machine.step(event).1 {
            Instruction::Attempt { leaving, index } => index < machine.total && (leaving matches Some(
                left,
            ) ==> left < machine.total),
            Instruction::Recheck { index, .. } => index < machine.total,
            Instruction::AskRetry { index } => index < machine.total,
            Instruction::Finish { leaving } => leaving matches Some(left) ==> left < machine.total,
            _ => true,
        },
{
}

/// Telling the machine one more event is one more step.
pub proof fn lemma_run_one_more(machine: FixLoopView, events: Seq<Event>, event: Event)
    ensures
        machine.run(events.push(event)) == machine.run(events).step(event).0,
        machine.instructions(events.push(event)) == machine.instructions(events).push(
            machine.run(events).step(event).1,
        ),
{
    assert(events.push(event).drop_last() =~= events);
}

/// An entry whose remediation command has made it clean is left at once:
/// after the command returns and the entry is found clean, the entry is
/// resolved as fixed, and the user has not been asked anything.
pub proof fn lemma_fixed_entry_is_left_unasked(machine: FixLoopView, code: i32)
    requires
        machine.wf(),
        machine.waiting == Waiting::Command,
    ensures
        ({
            let events = seq![Event::CommandExited { code }, Event::Checked { clean: true }];
            let after = machine.run(events);
            let instructions = machine.instructions(events);
            &&& after.entry_state(machine.current as int) == EntryState::Resolved(
                Resolution::Fixed,
            )
            &&& instructions.len() == 2
            &&& instructions[0] == Instruction::Recheck { index: machine.current, warn: code != 0 }
            &&& instructions[1] == if machine.current + 1 < machine.total {
                Instruction::Attempt {
                    leaving: Some(machine.current),
                    index: (machine.current + 1) as usize,
                }
            } else {
                Instruction::Finish { leaving: Some(machine.current) }
            }
            &&& forall|k: int| 0 <= k < instructions.len() ==> !(#[trigger] instructions[k] is AskRetry)
        }),
{
    let first = Event::CommandExited { code };
    let second = Event::Checked { clean: true };
    let none = Seq::<Event>::empty();
    lemma_run_one_more(machine, none, first);
    lemma_run_one_more(machine, none.push(first), second);
    assert(none.push(first).push(second) =~= seq![first, second]);
}

/// An entry that its remediation command does not fix, and that the user
/// declines to retry, has had its one attempt and no other: after the
/// command returns, the entry is found failing and the user says no, the
/// entry is resolved as declined, no attempt on it was started again, and
/// the batch is as long as it was.
pub proof fn lemma_declined_entry_is_attempted_once(machine: FixLoopView, code: i32)
    requires
        machine.wf(),
        machine.waiting == Waiting::Command,
    ensures
        ({
            let events = seq![
                Event::CommandExited { code },
                Event::Checked { clean: false },
                Event::Answered { retry: false },
            ];
            let after = machine.run(events);
            let instructions = machine.instructions(events);
            &&& after.entry_state(machine.current as int) == EntryState::Resolved(
                Resolution::Declined,
            )
            &&& after.total == machine.total
            &&& instructions.len() == 3
            &&& instructions[0] == Instruction::Recheck { index: machine.current, warn: code != 0 }
            &&& instructions[1] == Instruction::AskRetry { index: machine.current }
            &&& forall|k: int|
                0 <= k < instructions.len() ==> !(#[trigger] instructions[k] matches Instruction::Attempt {
                    index,
                    ..
                } && index == machine.current)
        }),
{
    let first = Event::CommandExited { code };
    let second = Event::Checked { clean: false };
    let third = Event::Answered { retry: false };
    let none = Seq::<Event>::empty();
    lemma_run_one_more(machine, none, first);
    lemma_run_one_more(machine, none.push(first), second);
    lemma_run_one_more(machine, none.push(first).push(second), third);
    assert(none.push(first).push(second).push(third) =~= seq![first, second, third]);
}

/// Whatever the machine is told, in whatever order, it keeps its invariant
/// and the size of its batch, and an entry that was left stays left as it was.
pub proof fn lemma_run_keeps_wf(machine: FixLoopView, events: Seq<Event>)
    requires
        machine.wf(),
    ensures
        machine.run(events).wf(),
        machine.run(events).total == machine.total,
        machine.run(events).current >= machine.current,
        forall|i: int|
            0 <= i < machine.current ==> machine.run(events).entry_state(i)
                == #[trigger] machine.entry_state(i),
    decreases events.len(),
{
    if events.len() > 0 {
        lemma_run_keeps_wf(machine, events.drop_last());
        lemma_step_keeps_wf(machine.run(events.drop_last()), events.last());
    }
}

} // verus!
