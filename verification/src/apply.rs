//! Applying one change: what has to be done outside, in which order, what a
//! refusal of the service manager means, and what is remembered afterwards.

use crate::change::{ChangeView, ServiceChange};
use crate::error::{Failure, ManagerError};
use crate::fingerprint::sha256_hex;
use crate::state::StateFile;
use crate::text::texts_of;
use vstd::prelude::*;
use vstd::string::*;

verus! {

/// The directory in which the unit files are installed, each under its
/// unit's name.
pub const LIVE_UNIT_DIR: &'static str = "/etc/systemd/system";

/// The program that is asked to reload and to restart.
pub const SERVICE_MANAGER: &'static str = "systemctl";

/// Number of steps that applying one change takes.
pub const STEPS_PER_CHANGE: usize = 3;

/// One piece of outside work that applying a change takes.
#[derive(Debug)]
pub enum ApplyStep {
    /// Write `content` to the unit file of `unit`, replacing what is there.
    WriteUnit { unit: String, content: String },
    /// Have the service manager read its unit files again.
    ReloadManager,
    /// Have the service manager restart `unit`.
    RestartUnit { unit: String },
}

/// An [`ApplyStep`] by the characters of its texts.
pub enum StepView {
    WriteUnit { unit: Seq<char>, content: Seq<char> },
    ReloadManager,
    RestartUnit { unit: Seq<char> },
}

impl View for ApplyStep {
    type V = StepView;

    open spec fn view(&self) -> StepView {
        match self {
            ApplyStep::WriteUnit { unit, content } => StepView::WriteUnit {
                unit: unit@,
                content: content@,
            },
            ApplyStep::ReloadManager => StepView::ReloadManager,
            ApplyStep::RestartUnit { unit } => StepView::RestartUnit { unit: unit@ },
        }
    }
}

/// The outside work for `change`, in the order in which it is done: the unit
/// file is written first, so that the reload sees it, and the unit is
/// restarted last.
pub open spec fn steps_for(change: ChangeView) -> Seq<StepView> {
    seq![
        StepView::WriteUnit { unit: change.unit, content: change.new_content },
        StepView::ReloadManager,
        StepView::RestartUnit { unit: change.unit },
    ]
}

/// The command line of a step that calls the service manager: the program,
/// then its arguments. Writing a file calls nothing.
pub open spec fn command_of(step: StepView) -> Option<Seq<Seq<char>>> {
    match step {
        StepView::WriteUnit { .. } => None,
        StepView::ReloadManager => Some(seq![SERVICE_MANAGER@, "daemon-reload"@]),
        StepView::RestartUnit { unit } => Some(seq![SERVICE_MANAGER@, "restart"@, unit]),
    }
}

/// What the exit status of a step's command means: a command that did not
/// succeed fails the run.
pub open spec fn exit_result(step: StepView, succeeded: bool) -> Result<(), Failure> {
    match step {
        StepView::ReloadManager if !succeeded => Err(Failure::ReloadFailed),
        StepView::RestartUnit { unit } if !succeeded => Err(Failure::RestartFailed(unit)),
        _ => Ok(()),
    }
}

/// The steps of a run of steps, each by its view.
pub open spec fn steps_of(steps: Seq<ApplyStep>) -> Seq<StepView> {
    steps.map_values(|step: ApplyStep| step@)
}

impl ApplyStep {
    /// The command line to run for this step, if it calls the service manager.
    pub fn command(&self) -> (words: Option<Vec<String>>)
        ensures
            match words {
                Some(words) => command_of(self@) == Some(texts_of(words@)),
                None => command_of(self@) is None,
            },
    {
        match self {
            ApplyStep::WriteUnit { .. } => None,
            ApplyStep::ReloadManager => {
                let mut words: Vec<String> = Vec::new();
                words.push(String::from_str(SERVICE_MANAGER));
                words.push(String::from_str("daemon-reload"));
                Some(words)
            },
            ApplyStep::RestartUnit { unit } => {
                let mut words: Vec<String> = Vec::new();
                words.push(String::from_str(SERVICE_MANAGER));
                words.push(String::from_str("restart"));
                words.push(unit.clone());
                Some(words)
            },
        }
    }

    /// Judges the exit status of this step's command: `succeeded` says
    /// whether the command exited with status zero.
    pub fn check_exit(&self, succeeded: bool) -> (outcome: Result<(), ManagerError>)
        ensures
            match outcome {
                Ok(_) => exit_result(self@, succeeded) is Ok,
                Err(error) => exit_result(self@, succeeded) == Err::<(), Failure>(error@),
            },
    {
        match self {
            ApplyStep::ReloadManager => if succeeded {
                Ok(())
            } else {
                Err(ManagerError::ReloadFailed)
            },
            ApplyStep::RestartUnit { unit } => if succeeded {
                Ok(())
            } else {
                Err(ManagerError::RestartFailed(unit.clone()))
            },
            ApplyStep::WriteUnit { .. } => Ok(()),
        }
    }
}

/// The step of `change` at `index`, counted from 0.
pub(crate) fn step_at(change: &ServiceChange, index: usize) -> (step: ApplyStep)
    requires
        index < STEPS_PER_CHANGE,
    ensures
        step@ == steps_for(change@)[index as int],
{
    if index == 0 {
        ApplyStep::WriteUnit { unit: change.unit.clone(), content: change.new_content.clone() }
    } else if index == 1 {
        ApplyStep::ReloadManager
    } else {
        ApplyStep::RestartUnit { unit: change.unit.clone() }
    }
}

/// The outside work that applying `change` takes, in order.
pub fn apply_steps(change: &ServiceChange) -> (steps: Vec<ApplyStep>)
    ensures
        steps_of(steps@) == steps_for(change@),
{
    let mut steps: Vec<ApplyStep> = Vec::new();
    steps.push(step_at(change, 0));
    steps.push(step_at(change, 1));
    steps.push(step_at(change, 2));
    steps
}

/// Remembers that `change` was carried out: the unit's stored fingerprint
/// becomes that of the content that was written. To be called once every
/// step of the change has succeeded.
pub fn sync_service(change: &ServiceChange, state: &mut StateFile)
    ensures
        final(state)@ == old(state)@.insert(change.unit@, sha256_hex(change.new_content@)),
{
    state.record(change.unit.as_str(), change.new_content.as_str());
}

} // verus!
