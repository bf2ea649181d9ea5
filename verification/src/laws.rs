//! What holds of every plan.

use crate::change::{analysis, desired_content, needs_update, ChangeView, ServiceSnapshot};
use crate::error::Failure;
use crate::fingerprint::sha256_hex;
use crate::planner::{decision, plan_result};
use crate::state::matches_stored;
use crate::text::content_of;
use vstd::prelude::*;

verus! {

/// The installed content of `snapshot` is exactly what its declaration
/// renders to.
pub open spec fn up_to_date(snapshot: ServiceSnapshot) -> bool {
    desired_content(snapshot) is Ok && content_of(snapshot.live_content) == Some(
        desired_content(snapshot)->Ok_0,
    )
}

/// Planning decides to change the unit of `snapshot`.
pub open spec fn decides_change(
    snapshot: ServiceSnapshot,
    state: Map<Seq<char>, Seq<char>>,
    force: bool,
) -> bool {
    decision(snapshot, state, force) is Ok && decision(snapshot, state, force)->Ok_0 is Some
}

/// The positions of the declarations that planning decides to change, in
/// ascending order.
pub open spec fn changed_positions(
    snapshots: Seq<ServiceSnapshot>,
    state: Map<Seq<char>, Seq<char>>,
    force: bool,
) -> Seq<int>
    decreases snapshots.len(),
{
    if snapshots.len() == 0 {
        Seq::empty()
    } else if decides_change(snapshots.last(), state, force) {
        changed_positions(snapshots.drop_last(), state, force).push(snapshots.len() - 1)
    } else {
        changed_positions(snapshots.drop_last(), state, force)
    }
}

/// A plan exists exactly where no declaration's decision is a failure.
pub proof fn lemma_plan_exists_iff_no_failure(
    snapshots: Seq<ServiceSnapshot>,
    state: Map<Seq<char>, Seq<char>>,
    force: bool,
)
    ensures
        plan_result(snapshots, state, force) is Ok <==> forall|i: int|
            0 <= i < snapshots.len() ==> decision(#[trigger] snapshots[i], state, force) is Ok,
    decreases snapshots.len(),
{
    if snapshots.len() > 0 {
        let front = snapshots.drop_last();
        lemma_plan_exists_iff_no_failure(front, state, force);
        if plan_result(snapshots, state, force) is Ok {
            assert forall|i: int| 0 <= i < snapshots.len() implies decision(
                #[trigger] snapshots[i],
                state,
                force,
            ) is Ok by {
                if i < front.len() {
                    assert(front[i] == snapshots[i]);
                }
            }
        }
        if forall|i: int|
            0 <= i < snapshots.len() ==> decision(#[trigger] snapshots[i], state, force) is Ok {
            assert forall|i: int| 0 <= i < front.len() implies decision(
                #[trigger] front[i],
                state,
                force,
            ) is Ok by {
                assert(front[i] == snapshots[i]);
            }
            assert(decision(snapshots[snapshots.len() - 1], state, force) is Ok);
        }
    }
}

/// Planning fails with the failure of the first declaration whose decision
/// is one.
pub proof fn lemma_plan_fails_with_first_failure(
    snapshots: Seq<ServiceSnapshot>,
    state: Map<Seq<char>, Seq<char>>,
    force: bool,
    first: int,
)
    requires
        0 <= first < snapshots.len(),
        decision(snapshots[first], state, force) is Err,
        forall|i: int| 0 <= i < first ==> decision(#[trigger] snapshots[i], state, force) is Ok,
    ensures
        plan_result(snapshots, state, force) == Err::<Seq<ChangeView>, Failure>(
            decision(snapshots[first], state, force)->Err_0,
        ),
    decreases snapshots.len(),
{
    let front = snapshots.drop_last();
    if first == snapshots.len() - 1 {
        lemma_plan_exists_iff_no_failure(front, state, force);
        assert forall|i: int| 0 <= i < front.len() implies decision(
            #[trigger] front[i],
            state,
            force,
        ) is Ok by {
            assert(front[i] == snapshots[i]);
        }
    } else {
        assert(front[first] == snapshots[first]);
        assert forall|i: int| 0 <= i < first implies decision(#[trigger] front[i], state, force)
            is Ok by {
            assert(front[i] == snapshots[i]);
        }
        lemma_plan_fails_with_first_failure(front, state, force, first);
    }
}

/// A plan holds the change of each declaration that planning decides to
/// change, once, in the order of the declarations, and nothing else.
pub proof fn lemma_plan_lists_decided_changes(
    snapshots: Seq<ServiceSnapshot>,
    state: Map<Seq<char>, Seq<char>>,
    force: bool,
)
    requires
        plan_result(snapshots, state, force) is Ok,
    ensures
        ({
            let changes = plan_result(snapshots, state, force)->Ok_0;
            let positions = changed_positions(snapshots, state, force);
            &&& changes.len() == positions.len()
            &&& forall|k: int|
                0 <= k < positions.len() ==> 0 <= #[trigger] positions[k] < snapshots.len()
                    && decision(snapshots[positions[k]], state, force) == Ok::<
                    Option<ChangeView>,
                    Failure,
                >(Some(changes[k]))
            &&& forall|j: int, k: int|
                0 <= j < k < positions.len() ==> #[trigger] positions[j] < #[trigger] positions[k]
            &&& forall|i: int|
                0 <= i < snapshots.len() && decides_change(#[trigger] snapshots[i], state, force)
                    ==> positions.contains(i)
        }),
    decreases snapshots.len(),
{
    if snapshots.len() > 0 {
        let front = snapshots.drop_last();
        let last = snapshots.len() - 1;
        lemma_plan_lists_decided_changes(front, state, force);
        let changes = plan_result(snapshots, state, force)->Ok_0;
        let positions = changed_positions(snapshots, state, force);
        let front_changes = plan_result(front, state, force)->Ok_0;
        let front_positions = changed_positions(front, state, force);
        assert forall|k: int| 0 <= k < positions.len() implies 0 <= #[trigger] positions[k]
            < snapshots.len() && decision(snapshots[positions[k]], state, force) == Ok::<
            Option<ChangeView>,
            Failure,
        >(Some(changes[k])) by {
            if k < front_positions.len() {
                assert(positions[k] == front_positions[k]);
                assert(front[front_positions[k]] == snapshots[positions[k]]);
                assert(changes[k] == front_changes[k]);
            }
        }
        assert forall|j: int, k: int| 0 <= j < k < positions.len() implies #[trigger] positions[j]
            < #[trigger] positions[k] by {
            assert(positions[j] == front_positions[j]);
            if k < front_positions.len() {
                assert(positions[k] == front_positions[k]);
            }
        }
        assert forall|i: int|
            0 <= i < snapshots.len() && decides_change(
                #[trigger] snapshots[i],
                state,
                force,
            ) implies positions.contains(i) by {
            if i < last {
                assert(front[i] == snapshots[i]);
                assert(front_positions.contains(i));
                let k = choose|k: int| 0 <= k < front_positions.len() && front_positions[k] == i;
                assert(positions[k] == i);
            } else {
                assert(positions[positions.len() - 1] == i);
            }
        }
    }
}

/// A unit that already holds the content that its declaration renders to is
/// left out of the plan, whatever the state remembers and whether or not
/// overriding was asked for.
pub proof fn lemma_up_to_date_unit_is_skipped(
    snapshot: ServiceSnapshot,
    state: Map<Seq<char>, Seq<char>>,
    force: bool,
)
    requires
        up_to_date(snapshot),
    ensures
        decision(snapshot, state, force) == Ok::<Option<ChangeView>, Failure>(None),
{
}

/// Idempotence: where every unit already holds the content that its
/// declaration renders to, the plan is empty, whatever the state remembers
/// and whether or not overriding was asked for. Planning changes nothing, so
/// planning again gives the same empty plan.
pub proof fn lemma_up_to_date_plan_is_empty(
    snapshots: Seq<ServiceSnapshot>,
    state: Map<Seq<char>, Seq<char>>,
    force: bool,
)
    requires
        forall|i: int| 0 <= i < snapshots.len() ==> up_to_date(#[trigger] snapshots[i]),
    ensures
        plan_result(snapshots, state, force) == Ok::<Seq<ChangeView>, Failure>(Seq::empty()),
    decreases snapshots.len(),
{
    if snapshots.len() > 0 {
        let front = snapshots.drop_last();
        assert forall|i: int| 0 <= i < front.len() implies up_to_date(#[trigger] front[i]) by {
            assert(front[i] == snapshots[i]);
        }
        lemma_up_to_date_plan_is_empty(front, state, force);
        assert(up_to_date(snapshots[snapshots.len() - 1]));
    }
}

/// A unit that is not installed is always created: its decision is a change
/// without previous content and without drift, whatever the state remembers
/// and whether or not overriding was asked for.
pub proof fn lemma_missing_unit_is_created(
    snapshot: ServiceSnapshot,
    state: Map<Seq<char>, Seq<char>>,
    force: bool,
)
    requires
        snapshot.live_content is None,
        desired_content(snapshot) is Ok,
    ensures
        decision(snapshot, state, force) == Ok::<Option<ChangeView>, Failure>(
            Some(
                ChangeView {
                    unit: snapshot.config.unit@,
                    old_content: None,
                    new_content: desired_content(snapshot)->Ok_0,
                    state_modified: false,
                },
            ),
        ),
{
}

/// A unit for which no fingerprint is stored never counts as drifted: the
/// decision on it does not depend on whether overriding was asked for.
pub proof fn lemma_unknown_unit_ignores_force(
    snapshot: ServiceSnapshot,
    state: Map<Seq<char>, Seq<char>>,
)
    requires
        !state.contains_key(snapshot.config.unit@),
    ensures
        decision(snapshot, state, false) == decision(snapshot, state, true),
        analysis(snapshot, state) is Ok ==> !analysis(snapshot, state)->Ok_0.state_modified,
{
}

/// Overriding: where every template renders and some unit drifted and needs
/// an update, planning without `force` fails with the drift of a unit, and
/// planning with `force` on the same input succeeds and holds that unit's
/// change.
pub proof fn lemma_force_overrides_drift(
    snapshots: Seq<ServiceSnapshot>,
    state: Map<Seq<char>, Seq<char>>,
    drifted_at: int,
)
    requires
        forall|i: int| 0 <= i < snapshots.len() ==> analysis(#[trigger] snapshots[i], state) is Ok,
        0 <= drifted_at < snapshots.len(),
        needs_update(analysis(snapshots[drifted_at], state)->Ok_0),
        analysis(snapshots[drifted_at], state)->Ok_0.state_modified,
    ensures
        plan_result(snapshots, state, false) is Err,
        plan_result(snapshots, state, false)->Err_0 is StateOutOfSync,
        plan_result(snapshots, state, true) is Ok,
        plan_result(snapshots, state, true)->Ok_0.contains(
            analysis(snapshots[drifted_at], state)->Ok_0,
        ),
{
    // Without force: the first failing decision is a drift, since every
    // template renders.
    lemma_plan_exists_iff_no_failure(snapshots, state, false);
    assert(decision(snapshots[drifted_at], state, false) is Err);
    let first = choose_first_failure(snapshots, state, drifted_at);
    lemma_plan_fails_with_first_failure(snapshots, state, false, first);
    assert(analysis(snapshots[first], state) is Ok);

    // With force: no decision fails.
    lemma_plan_exists_iff_no_failure(snapshots, state, true);
    assert forall|i: int| 0 <= i < snapshots.len() implies decision(
        #[trigger] snapshots[i],
        state,
        true,
    ) is Ok by {
        assert(analysis(snapshots[i], state) is Ok);
    }
    lemma_plan_lists_decided_changes(snapshots, state, true);
    let positions = changed_positions(snapshots, state, true);
    assert(positions.contains(drifted_at));
    let k = choose|k: int| 0 <= k < positions.len() && positions[k] == drifted_at;
    let changes = plan_result(snapshots, state, true)->Ok_0;
    assert(changes[k] == analysis(snapshots[drifted_at], state)->Ok_0);
}

/// Once a change was applied, its unit holds the content that was written
/// and the state remembers that content: the unit no longer drifts, and a
/// new look at it finds nothing to do, with or without overriding.
pub proof fn lemma_applied_unit_needs_nothing(
    before: ServiceSnapshot,
    after: ServiceSnapshot,
    state: Map<Seq<char>, Seq<char>>,
    force: bool,
)
    requires
        desired_content(before) is Ok,
        desired_content(after) == desired_content(before),
        after.config.unit@ == before.config.unit@,
        content_of(after.live_content) == Some(desired_content(before)->Ok_0),
    ensures
        up_to_date(after),
        matches_stored(
            state.insert(before.config.unit@, sha256_hex(desired_content(before)->Ok_0)),
            after.config.unit@,
            after.live_content->Some_0@,
        ),
        decision(
            after,
            state.insert(before.config.unit@, sha256_hex(desired_content(before)->Ok_0)),
            force,
        ) == Ok::<Option<ChangeView>, Failure>(None),
{
}

/// The first position, up to `failing`, whose decision without `force` is a
/// failure.
proof fn choose_first_failure(
    snapshots: Seq<ServiceSnapshot>,
    state: Map<Seq<char>, Seq<char>>,
    failing: int,
) -> (first: int)
    requires
        0 <= failing < snapshots.len(),
        decision(snapshots[failing], state, false) is Err,
    ensures
        0 <= first <= failing,
        decision(snapshots[first], state, false) is Err,
        forall|i: int| 0 <= i < first ==> decision(#[trigger] snapshots[i], state, false) is Ok,
    decreases failing,
{
    if exists|i: int| 0 <= i < failing && decision(#[trigger] snapshots[i], state, false) is Err {
        let earlier = choose|i: int|
            0 <= i < failing && decision(#[trigger] snapshots[i], state, false) is Err;
        choose_first_failure(snapshots, state, earlier)
    } else {
        failing
    }
}

} // verus!
