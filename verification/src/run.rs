//! A run from its plan to its end: what the caller is to do next, given what
//! happened last.
//!
//! The caller does the outside work (asking the operator, writing files,
//! calling the service manager, saving the state) and reports each result as
//! an [`Event`]. The run answers with the next [`Action`]. The state is
//! changed in memory once for each change whose steps all succeeded, and it
//! is to be saved once, when every change is applied.

use crate::apply::{
    exit_result, step_at, steps_for, sync_service, ApplyStep, StepView, STEPS_PER_CHANGE,
};
use crate::change::{ChangeView, ServiceChange};
use crate::error::{Failure, ManagerError};
use crate::fingerprint::sha256_hex;
use crate::planner::views_of;
use crate::state::{matches_stored, StateFile};
use vstd::prelude::*;

verus! {

/// How a run ended.
#[derive(Clone, Copy, Debug, PartialEq, Eq)]
pub enum Outcome {
    /// The plan was empty: nothing was to be done.
    NoChanges,
    /// The operator declined the plan: nothing was done.
    Cancelled,
    /// Every change was applied and the state was saved.
    Applied,
}

/// What the operator is told when a run ends in this way.
pub open spec fn outcome_message(outcome: Outcome) -> Seq<char> {
    match outcome {
        Outcome::NoChanges => "No changes needed for any services"@,
        Outcome::Cancelled => "Operation cancelled."@,
        Outcome::Applied => "All changes applied successfully!"@,
    }
}

impl Outcome {
    /// What to tell the operator at the end of the run.
    pub fn message(self) -> (text: &'static str)
        ensures
            text@ == outcome_message(self),
    {
        match self {
            Outcome::NoChanges => "No changes needed for any services",
            Outcome::Cancelled => "Operation cancelled.",
            Outcome::Applied => "All changes applied successfully!",
        }
    }
}

/// Where a run stands.
#[derive(Clone, Copy, Debug, PartialEq, Eq)]
pub enum Stage {
    /// The plan is before the operator, who has not answered yet.
    AwaitingAnswer,
    /// Step `step` of the change at `change` is being carried out.
    Applying { change: usize, step: usize },
    /// Every change is applied; the state is being saved.
    Saving,
    /// The run is over.
    Finished(Outcome),
}

/// What happened outside.
#[derive(Clone, Copy, Debug, PartialEq, Eq)]
pub enum Event {
    /// The operator answered: `true` to apply the plan.
    Answered(bool),
    /// The step asked for was carried out; for a command of the service
    /// manager, `true` says that it exited with status zero.
    StepDone(bool),
    /// The state was saved.
    StateSaved,
}

/// What the caller is to do next.
#[derive(Debug)]
pub enum Action {
    /// Show the plan and ask the operator whether to apply it.
    AskOperator,
    /// Carry out this step.
    Perform(ApplyStep),
    /// Save the state, replacing what is stored.
    SaveState,
    /// Stop: the run is over.
    Finish(Outcome),
}

/// An [`Action`] by the characters of its texts.
pub enum ActionView {
    AskOperator,
    Perform(StepView),
    SaveState,
    Finish(Outcome),
}

impl View for Action {
    type V = ActionView;

    open spec fn view(&self) -> ActionView {
        match self {
            Action::AskOperator => ActionView::AskOperator,
            Action::Perform(step) => ActionView::Perform(step@),
            Action::SaveState => ActionView::SaveState,
            Action::Finish(outcome) => ActionView::Finish(*outcome),
        }
    }
}

/// A run: its plan, what the state remembers by now, and where it stands.
pub struct RunView {
    pub changes: Seq<ChangeView>,
    pub state: Map<Seq<char>, Seq<char>>,
    pub stage: Stage,
}

/// The stage of `run` fits its plan: the changes can be counted, a change
/// that is being applied is one of the plan, and the operator is only asked
/// about a plan that holds something.
pub open spec fn well_formed(run: RunView) -> bool {
    &&& run.changes.len() <= usize::MAX
    &&& match run.stage {
        Stage::AwaitingAnswer => run.changes.len() > 0,
        Stage::Applying { change, step } => change < run.changes.len() && step < STEPS_PER_CHANGE,
        Stage::Saving => true,
        Stage::Finished(_) => true,
    }
}

/// The run at its start: with nothing planned it is over at once.
pub open spec fn started(changes: Seq<ChangeView>, state: Map<Seq<char>, Seq<char>>) -> RunView {
    RunView {
        changes,
        state,
        stage: if changes.len() == 0 {
            Stage::Finished(Outcome::NoChanges)
        } else {
            Stage::AwaitingAnswer
        },
    }
}

/// What `run` waits for the caller to do.
pub open spec fn pending(run: RunView) -> ActionView {
    match run.stage {
        Stage::AwaitingAnswer => ActionView::AskOperator,
        Stage::Applying { change, step } => ActionView::Perform(
            steps_for(run.changes[change as int])[step as int],
        ),
        Stage::Saving => ActionView::SaveState,
        Stage::Finished(outcome) => ActionView::Finish(outcome),
    }
}

/// The run after `event`, or the failure that ends it.
///
/// A declined plan ends the run. A step that succeeded leads to the next
/// step; after the last step of a change the state remembers the content
/// that was written, and the next change follows, or the saving of the state
/// after the last change. A command of the service manager that did not
/// succeed fails the run. An event that the run does not wait for changes
/// nothing.
pub open spec fn next(run: RunView, event: Event) -> Result<RunView, Failure> {
    match (run.stage, event) {
        (Stage::AwaitingAnswer, Event::Answered(true)) => Ok(
            RunView { stage: Stage::Applying { change: 0, step: 0 }, ..run },
        ),
        (Stage::AwaitingAnswer, Event::Answered(false)) => Ok(
            RunView { stage: Stage::Finished(Outcome::Cancelled), ..run },
        ),
        (Stage::Applying { change, step }, Event::StepDone(succeeded)) => {
            let current = run.changes[change as int];
            match exit_result(steps_for(current)[step as int], succeeded) {
                Err(failure) => Err(failure),
                Ok(_) => if step + 1 < STEPS_PER_CHANGE {
                    Ok(
                        RunView {
                            stage: Stage::Applying { change, step: (step + 1) as usize },
                            ..run
                        },
                    )
                } else {
                    Ok(
                        RunView {
                            state: run.state.insert(current.unit, sha256_hex(current.new_content)),
                            stage: if change + 1 < run.changes.len() {
                                Stage::Applying { change: (change + 1) as usize, step: 0 }
                            } else {
                                Stage::Saving
                            },
                            ..run
                        },
                    )
                },
            }
        },
        (Stage::Saving, Event::StateSaved) => Ok(
            RunView { stage: Stage::Finished(Outcome::Applied), ..run },
        ),
        _ => Ok(run),
    }
}

/// A run in progress.
#[derive(Debug)]
pub struct Run {
    changes: Vec<ServiceChange>,
    state: StateFile,
    stage: Stage,
}

impl View for Run {
    type V = RunView;

    closed spec fn view(&self) -> RunView {
        RunView { changes: views_of(self.changes@), state: self.state@, stage: self.stage }
    }
}

impl Run {
    #[verifier::type_invariant]
    spec fn fits_plan(&self) -> bool {
        well_formed(self@)
    }

    /// Starts a run on the plan `changes`, with what `state` remembers.
    /// Gives the run and what to do first.
    pub fn begin(changes: Vec<ServiceChange>, state: StateFile) -> (run: (Run, Action))
        ensures
            run.0@ == started(views_of(changes@), state@),
            run.1@ == pending(run.0@),
    {
        let stage = if changes.len() == 0 {
            Stage::Finished(Outcome::NoChanges)
        } else {
            Stage::AwaitingAnswer
        };
        let run = Run { changes, state, stage };
        let action = run.pending_action();
        (run, action)
    }

    /// Takes note of `event`. Gives the run as it stands afterwards and what
    /// to do next, or the failure that ends the run.
    pub fn advance(self, event: Event) -> (outcome: Result<(Run, Action), ManagerError>)
        ensures
            match outcome {
                Ok((run, action)) => next(self@, event) == Ok::<RunView, Failure>(run@) && action@
                    == pending(run@),
                Err(error) => next(self@, event) == Err::<RunView, Failure>(error@),
            },
    {
        proof {
            use_type_invariant(&self);
        }
        let Run { changes, mut state, stage } = self;
        let count = changes.len();
        let stage = match (stage, event) {
            (Stage::AwaitingAnswer, Event::Answered(true)) => Stage::Applying {
                change: 0,
                step: 0,
            },
            (Stage::AwaitingAnswer, Event::Answered(false)) => Stage::Finished(
                Outcome::Cancelled,
            ),
            (Stage::Applying { change, step }, Event::StepDone(succeeded)) => {
                let current = &changes[change];
                match step_at(current, step).check_exit(succeeded) {
                    Ok(_) => {},
                    Err(error) => {
                        return Err(error);
                    },
                }
                if step + 1 < STEPS_PER_CHANGE {
                    Stage::Applying { change, step: step + 1 }
                } else {
                    sync_service(current, &mut state);
                    if change + 1 < count {
                        Stage::Applying { change: change + 1, step: 0 }
                    } else {
                        Stage::Saving
                    }
                }
            },
            (Stage::Saving, Event::StateSaved) => Stage::Finished(Outcome::Applied),
            (stage, _) => stage,
        };
        let run = Run { changes, state, stage };
        let action = run.pending_action();
        Ok((run, action))
    }

    /// What the run waits for the caller to do.
    pub fn pending_action(&self) -> (action: Action)
        ensures
            action@ == pending(self@),
    {
        proof {
            use_type_invariant(self);
        }
        match self.stage {
            Stage::AwaitingAnswer => Action::AskOperator,
            Stage::Applying { change, step } => {
                Action::Perform(step_at(&self.changes[change], step))
            },
            Stage::Saving => Action::SaveState,
            Stage::Finished(outcome) => Action::Finish(outcome),
        }
    }

    /// The plan of the run.
    pub fn changes(&self) -> (changes: &Vec<ServiceChange>)
        ensures
            views_of(changes@) == self@.changes,
    {
        &self.changes
    }

    /// What the state remembers by now.
    pub fn state(&self) -> (state: &StateFile)
        ensures
            state@ == self@.state,
    {
        &self.state
    }

    /// Ends the run and hands out what the state remembers.
    pub fn into_state(self) -> (state: StateFile)
        ensures
            state@ == self@.state,
    {
        self.state
    }

    /// Where the run stands.
    pub fn stage(&self) -> (stage: Stage)
        ensures
            stage == self@.stage,
            well_formed(self@),
    {
        proof {
            use_type_invariant(self);
        }
        self.stage
    }
}

/// How far a run has come, counted in places: the question to the
/// operator, then the three steps of each change in turn, then the saving of
/// the state, then the end.
pub open spec fn rank(run: RunView) -> int {
    match run.stage {
        Stage::AwaitingAnswer => 0,
        Stage::Applying { change, step } => 1 + 3 * change + step,
        Stage::Saving => 1 + 3 * (run.changes.len() as int),
        Stage::Finished(_) => 2 + 3 * (run.changes.len() as int),
    }
}

/// What `state` remembers once each of `changes` is recorded, in order.
pub open spec fn recorded(state: Map<Seq<char>, Seq<char>>, changes: Seq<ChangeView>) -> Map<
    Seq<char>,
    Seq<char>,
>
    decreases changes.len(),
{
    if changes.len() == 0 {
        state
    } else {
        recorded(state, changes.drop_last()).insert(
            changes.last().unit,
            sha256_hex(changes.last().new_content),
        )
    }
}

/// What the state of `run` holds, given what it held at the start: the
/// changes that were applied so far are recorded, and nothing else.
pub open spec fn consistent(initial: Map<Seq<char>, Seq<char>>, run: RunView) -> bool {
    match run.stage {
        Stage::AwaitingAnswer => run.state == initial,
        Stage::Applying { change, step } => run.state == recorded(
            initial,
            run.changes.take(change as int),
        ),
        Stage::Saving => run.state == recorded(initial, run.changes),
        Stage::Finished(Outcome::NoChanges) => run.state == initial && run.changes.len() == 0,
        Stage::Finished(Outcome::Cancelled) => run.state == initial,
        Stage::Finished(Outcome::Applied) => run.state == recorded(initial, run.changes),
    }
}

/// The run after each of `events` in turn, or the first failure.
pub open spec fn run_after(run: RunView, events: Seq<Event>) -> Result<RunView, Failure>
    decreases events.len(),
{
    if events.len() == 0 {
        Ok(run)
    } else {
        match run_after(run, events.drop_last()) {
            Err(failure) => Err(failure),
            Ok(earlier) => next(earlier, events.last()),
        }
    }
}

/// A run only moves forward, and never skips a step: an event leaves it
/// where it is, moves it to the very next place, or ends it. The plan stays
/// as it is.
pub proof fn lemma_run_moves_forward(run: RunView, event: Event)
    requires
        well_formed(run),
        next(run, event) is Ok,
    ensures
        well_formed(next(run, event)->Ok_0),
        next(run, event)->Ok_0.changes == run.changes,
        next(run, event)->Ok_0 == run || rank(next(run, event)->Ok_0) == rank(run) + 1 || (run.stage
            == Stage::AwaitingAnswer && next(run, event)->Ok_0.stage == Stage::Finished(
            Outcome::Cancelled,
        )),
{
}

/// The state changes only when the last step of a change has succeeded, and
/// then by recording that change.
pub proof fn lemma_state_changes_by_recording(run: RunView, event: Event)
    requires
        well_formed(run),
        next(run, event) is Ok,
    ensures
        next(run, event)->Ok_0.state == run.state || (run.stage matches Stage::Applying {
            change,
            step,
        } && step + 1 == STEPS_PER_CHANGE && event == Event::StepDone(true) && next(
            run,
            event,
        )->Ok_0.state == run.state.insert(
            run.changes[change as int].unit,
            sha256_hex(run.changes[change as int].new_content),
        )),
{
}

/// Recording one more change of a plan.
proof fn lemma_recorded_one_more(
    initial: Map<Seq<char>, Seq<char>>,
    changes: Seq<ChangeView>,
    done: int,
)
    requires
        0 <= done < changes.len(),
    ensures
        recorded(initial, changes.take(done + 1)) == recorded(initial, changes.take(done)).insert(
            changes[done].unit,
            sha256_hex(changes[done].new_content),
        ),
{
    let now = changes.take(done + 1);
    assert(now.drop_last() =~= changes.take(done));
    assert(now.last() == changes[done]);
}

/// One event keeps the state in step with the stage.
pub proof fn lemma_next_keeps_consistent(
    initial: Map<Seq<char>, Seq<char>>,
    run: RunView,
    event: Event,
)
    requires
        well_formed(run),
        consistent(initial, run),
        next(run, event) is Ok,
    ensures
        consistent(initial, next(run, event)->Ok_0),
{
    let after = next(run, event)->Ok_0;
    if run.stage == Stage::AwaitingAnswer && event == Event::Answered(true) {
        assert(run.changes.take(0) =~= Seq::empty());
    } else if run.stage is Applying && event is StepDone {
        let change = run.stage->change;
        let step = run.stage->step;
        if step + 1 < STEPS_PER_CHANGE {
            assert(after.stage == Stage::Applying { change, step: (step + 1) as usize });
            assert(after.state == run.state);
        } else {
            lemma_recorded_one_more(initial, run.changes, change as int);
            if change + 1 >= run.changes.len() {
                assert(run.changes.take(change + 1) =~= run.changes);
            }
        }
    }
}

/// Whatever happens outside, the state of a run holds what it held at the
/// start and, on top of that, a record of each change applied so far. So a
/// plan that was declined leaves the state untouched, and the state that is
/// to be saved, or was saved, holds every change of the plan.
pub proof fn lemma_run_records_applied_changes(
    changes: Seq<ChangeView>,
    initial: Map<Seq<char>, Seq<char>>,
    events: Seq<Event>,
)
    requires
        changes.len() <= usize::MAX,
        run_after(started(changes, initial), events) is Ok,
    ensures
        ({
            let run = run_after(started(changes, initial), events)->Ok_0;
            &&& well_formed(run)
            &&& run.changes == changes
            &&& consistent(initial, run)
            &&& run.stage == Stage::Finished(Outcome::Cancelled) ==> run.state == initial
            &&& pending(run) is SaveState ==> run.state == recorded(initial, changes)
            &&& run.stage == Stage::Finished(Outcome::Applied) ==> run.state == recorded(
                initial,
                changes,
            )
        }),
    decreases events.len(),
{
    if events.len() > 0 {
        lemma_run_records_applied_changes(changes, initial, events.drop_last());
        let earlier = run_after(started(changes, initial), events.drop_last())->Ok_0;
        lemma_run_moves_forward(earlier, events.last());
        lemma_next_keeps_consistent(initial, earlier, events.last());
    }
}

/// Once every change is recorded, the content written last for a unit is
/// the content that the state expects of it.
pub proof fn lemma_recorded_content_matches_last(
    initial: Map<Seq<char>, Seq<char>>,
    changes: Seq<ChangeView>,
    last: int,
)
    requires
        0 <= last < changes.len(),
        forall|later: int| last < later < changes.len() ==> changes[later].unit != changes[last].unit,
    ensures
        matches_stored(recorded(initial, changes), changes[last].unit, changes[last].new_content),
    decreases changes.len(),
{
    if last < changes.len() - 1 {
        let front = changes.drop_last();
        assert(changes.last().unit != changes[last].unit);
        assert(front[last] == changes[last]);
        assert forall|later: int| last < later < front.len() implies front[later].unit
            != front[last].unit by {
            assert(front[later] == changes[later]);
        }
        lemma_recorded_content_matches_last(initial, front, last);
    }
}

} // verus!
