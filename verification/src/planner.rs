//! The plan of a run: the changes that are needed, in the order of the
//! declarations, or the first failure that forbids the run.

use crate::change::{
    analysis, needs_update, preview_changes, ChangeView, ServiceChange, ServiceSnapshot,
};
use crate::error::{Failure, ManagerError};
use crate::state::StateFile;
use vstd::prelude::*;
use vstd::string::*;

verus! {

/// What planning does with one declaration: nothing where the installed
/// content is already the declared one, a failure where it drifted and
/// `force` is not set, the change otherwise.
pub open spec fn decision(
    snapshot: ServiceSnapshot,
    state: Map<Seq<char>, Seq<char>>,
    force: bool,
) -> Result<Option<ChangeView>, Failure> {
    match analysis(snapshot, state) {
        Err(failure) => Err(failure),
        Ok(change) => if !needs_update(change) {
            Ok(None)
        } else if change.state_modified && !force {
            Err(Failure::StateOutOfSync(change.unit))
        } else {
            Ok(Some(change))
        },
    }
}

/// The plan for `snapshots`, taken in order: the first failure among their
/// decisions, or else the changes that were decided on.
pub open spec fn plan_result(
    snapshots: Seq<ServiceSnapshot>,
    state: Map<Seq<char>, Seq<char>>,
    force: bool,
) -> Result<Seq<ChangeView>, Failure>
    decreases snapshots.len(),
{
    if snapshots.len() == 0 {
        Ok(Seq::empty())
    } else {
        match plan_result(snapshots.drop_last(), state, force) {
            Err(failure) => Err(failure),
            Ok(changes) => match decision(snapshots.last(), state, force) {
                Err(failure) => Err(failure),
                Ok(None) => Ok(changes),
                Ok(Some(change)) => Ok(changes.push(change)),
            },
        }
    }
}

/// The changes of a plan, each by its view.
pub open spec fn views_of(changes: Seq<ServiceChange>) -> Seq<ChangeView> {
    changes.map_values(|change: ServiceChange| change@)
}

/// A failure among the first declarations is the failure of the whole plan.
pub proof fn lemma_failure_of_prefix(
    snapshots: Seq<ServiceSnapshot>,
    state: Map<Seq<char>, Seq<char>>,
    force: bool,
    n: int,
)
    requires
        0 <= n <= snapshots.len(),
        plan_result(snapshots.take(n), state, force) is Err,
    ensures
        plan_result(snapshots, state, force) == plan_result(snapshots.take(n), state, force),
    decreases snapshots.len(),
{
    if n < snapshots.len() {
        assert(snapshots.drop_last().take(n) =~= snapshots.take(n));
        lemma_failure_of_prefix(snapshots.drop_last(), state, force, n);
    } else {
        assert(snapshots.take(n) =~= snapshots);
    }
}

/// Decides on one declaration.
pub fn plan_service(snapshot: &ServiceSnapshot, state: &StateFile, force: bool) -> (outcome: Result<
    Option<ServiceChange>,
    ManagerError,
>)
    ensures
        match outcome {
            Ok(Some(change)) => decision(*snapshot, state@, force) == Ok::<
                Option<ChangeView>,
                Failure,
            >(Some(change@)),
            Ok(None) => decision(*snapshot, state@, force) == Ok::<Option<ChangeView>, Failure>(
                None,
            ),
            Err(error) => decision(*snapshot, state@, force) == Err::<Option<ChangeView>, Failure>(
                error@,
            ),
        },
{
    let change = match preview_changes(snapshot, state) {
        Ok(change) => change,
        Err(error) => {
            return Err(error);
        },
    };
    if !change.needs_update() {
        Ok(None)
    } else if change.state_modified && !force {
        Err(ManagerError::StateOutOfSync(change.unit))
    } else {
        Ok(Some(change))
    }
}

/// Plans a run over `snapshots`, in their order, which is also the order in
/// which the changes are applied later.
///
/// Planning is all or nothing: one declaration whose template is missing or
/// does not render, or whose unit drifted while `force` is not set, fails
/// the whole plan. Declarations are not checked for naming a unit twice:
/// each is planned on its own.
pub fn plan(snapshots: &Vec<ServiceSnapshot>, state: &StateFile, force: bool) -> (outcome: Result<
    Vec<ServiceChange>,
    ManagerError,
>)
    ensures
        match outcome {
            Ok(changes) => plan_result(snapshots@, state@, force) == Ok::<Seq<ChangeView>, Failure>(
                views_of(changes@),
            ),
            Err(error) => plan_result(snapshots@, state@, force) == Err::<Seq<ChangeView>, Failure>(
                error@,
            ),
        },
{
    let mut changes: Vec<ServiceChange> = Vec::new();
    let mut i: usize = 0;
    proof {
        assert(views_of(changes@) =~= Seq::empty());
    }
    while i < snapshots.len()
        invariant
            i <= snapshots@.len(),
            plan_result(snapshots@.take(i as int), state@, force) == Ok::<Seq<ChangeView>, Failure>(
                views_of(changes@),
            ),
        decreases snapshots@.len() - i,
    {
        let ghost before = changes@;
        let ghost prefix = snapshots@.take(i + 1);
        proof {
            assert(prefix.drop_last() =~= snapshots@.take(i as int));
        }
        match plan_service(&snapshots[i], state, force) {
            Err(error) => {
                proof {
                    lemma_failure_of_prefix(snapshots@, state@, force, i + 1);
                }
                return Err(error);
            },
            Ok(None) => {},
            Ok(Some(change)) => {
                proof {
                    assert(views_of(before.push(change)) =~= views_of(before).push(change@));
                }
                changes.push(change);
            },
        }
        i += 1;
    }
    proof {
        assert(snapshots@.take(i as int) =~= snapshots@);
    }
    Ok(changes)
}

} // verus!
