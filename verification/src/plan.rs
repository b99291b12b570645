//! What a run is to do, as a function of the steps, the version that the
//! store is at and the version that is asked for.

use vstd::prelude::*;
use crate::error::{MigrationDefinitionError, MigrationError};
use crate::session::{closing, run_fails_with, Request};
use crate::step::MView;
use crate::version::SchemaVersion;

verus! {

/// Whether every step with an index in `[lo, hi)` has a reverse script.
pub open spec fn revertible(steps: Seq<MView>, lo: int, hi: int) -> bool {
    forall|i: int| lo <= i < hi ==> (#[trigger] steps[i]).down is Some
}

/// The lowest index in `[lo, hi)` of a step without a reverse script.
pub open spec fn first_without_down(steps: Seq<MView>, lo: int, hi: int) -> Option<int>
    decreases hi - lo,
{
    if lo >= hi {
        None
    } else if steps[lo].down is None {
        Some(lo)
    } else {
        first_without_down(steps, lo + 1, hi)
    }
}

/// `first_without_down` finds nothing exactly where every step can be
/// reverted, and else the step before which every step can.
pub proof fn lemma_first_without_down(steps: Seq<MView>, lo: int, hi: int)
    ensures
        first_without_down(steps, lo, hi) is None <==> revertible(steps, lo, hi),
        first_without_down(steps, lo, hi) matches Some(i) ==> lo <= i < hi && steps[i].down is None
            && revertible(steps, lo, i),
    decreases hi - lo,
{
    if lo < hi {
        lemma_first_without_down(steps, lo + 1, hi);
        if steps[lo].down is Some {
            if revertible(steps, lo + 1, hi) {
                assert forall|i: int| lo <= i < hi implies (#[trigger] steps[i]).down is Some by {
                    if i > lo {
                        assert(lo + 1 <= i < hi);
                    }
                }
            }
            if let Some(i) = first_without_down(steps, lo + 1, hi) {
                assert forall|j: int| lo <= j < i implies (#[trigger] steps[j]).down is Some by {
                    if j > lo {
                        assert(lo + 1 <= j < i);
                    }
                }
            }
        }
    }
}

/// What one step asks of the store on the way up: its forward script, then
/// the foreign key check if the step calls for one, then its forward hook if
/// it has one.
pub open spec fn step_up_requests(m: MView) -> Seq<Request> {
    seq![Request::Batch(m.up)] + (if m.foreign_key_check {
        seq![Request::ForeignKeyCheck]
    } else {
        Seq::empty()
    }) + (if m.up_hook is Some {
        seq![Request::UpHook(m)]
    } else {
        Seq::empty()
    })
}

/// What one step asks of the store on the way down: its reverse hook if it
/// has one, then its reverse script.
pub open spec fn step_down_requests(m: MView) -> Seq<Request>
    recommends
        m.down is Some,
{
    (if m.down_hook is Some {
        seq![Request::DownHook(m)]
    } else {
        Seq::empty()
    }) + seq![Request::Batch(m.down->0)]
}

/// What the way up from version `from` to version `to` asks of the store: the
/// steps with the indices `from` to `to - 1`, in ascending order.
pub open spec fn up_requests(steps: Seq<MView>, from: int, to: int) -> Seq<Request>
    decreases to - from,
{
    if from >= to {
        Seq::empty()
    } else {
        up_requests(steps, from, to - 1) + step_up_requests(steps[to - 1])
    }
}

/// What the way down from version `from` to version `to` asks of the store:
/// the steps with the indices `from - 1` down to `to`, in descending order.
pub open spec fn down_requests(steps: Seq<MView>, from: int, to: int) -> Seq<Request>
    decreases from - to,
{
    if from <= to {
        Seq::empty()
    } else {
        down_requests(steps, from, to + 1) + step_down_requests(steps[to])
    }
}

/// Everything that the way up from version `from` to version `to` asks of the
/// store inside its transaction: the steps, then the new version, then the
/// commit. The version is cut to the 32 bits that the store keeps.
pub open spec fn up_run(steps: Seq<MView>, from: usize, to: usize) -> Seq<Request> {
    up_requests(steps, from as int, to as int) + closing(to)
}

/// Everything that the way down from version `from` to version `to` asks of
/// the store inside its transaction: the steps, then the new version, then
/// the commit. The version is cut to the 32 bits that the store keeps.
pub open spec fn down_run(steps: Seq<MView>, from: usize, to: usize) -> Seq<Request> {
    down_requests(steps, from as int, to as int) + closing(to)
}

/// What is to be done to get from one version to another.
pub enum Plan {
    /// Nothing: the store is where it is asked to be.
    Stay,
    /// Nothing can be done, and nothing is tried.
    Refuse(MigrationDefinitionError),
    /// Apply the steps in between, in ascending order.
    Up,
    /// Revert the steps in between, in descending order.
    Down,
}

/// What is to be done to get a store that is at version `current` to version
/// `target`.
pub open spec fn plan(steps: Seq<MView>, current: usize, target: usize) -> Plan {
    if target == current {
        Plan::Stay
    } else if target > current {
        Plan::Up
    } else if current > steps.len() {
        Plan::Refuse(MigrationDefinitionError::DatabaseTooFarAhead)
    } else {
        match first_without_down(steps, target as int, current as int) {
            Some(i) => Plan::Refuse(
                MigrationDefinitionError::DownNotDefined { migration_index: i as usize },
            ),
            None => Plan::Down,
        }
    }
}

/// Whether the plan for a store at version `current` asks nothing of the
/// store: there is nothing to do, or nothing can be done.
pub open spec fn leaves_alone(steps: Seq<MView>, current: usize, target: usize) -> bool {
    plan(steps, current, target) is Stay || plan(steps, current, target) is Refuse
}

/// What an attempt to get a store that is at version `current` to version
/// `target` ends in. Where there is nothing to do it succeeds. Where nothing
/// can be done it fails with the reason. Where there are steps to run,
/// whether they succeed is the store's to say: if they fail, the error is
/// that of the one request of the run that failed, or says that no
/// transaction could be begun.
pub open spec fn outcome(
    steps: Seq<MView>,
    current: usize,
    target: usize,
    r: Result<(), MigrationError>,
) -> bool {
    match plan(steps, current, target) {
        Plan::Stay => r is Ok,
        Plan::Refuse(d) => r == Err::<(), MigrationError>(MigrationError::MigrationDefinition(d)),
        Plan::Up => r matches Err(e) ==> run_fails_with(up_run(steps, current, target), e),
        Plan::Down => r matches Err(e) ==> run_fails_with(down_run(steps, current, target), e),
    }
}

/// Whether `target` cannot be reached from a store at version `current`: it
/// lies above the store's version and beyond the last step.
pub open spec fn beyond_reach(steps: Seq<MView>, current: usize, target: usize) -> bool {
    target > current && target > steps.len()
}

/// What an attempt ends in that begins with any target at all and the
/// version `current` that was read from the store. A target that cannot be
/// reached is refused as a version beyond the last step. Every other target
/// ends as [`outcome`] says.
pub open spec fn outcome_of_read(
    steps: Seq<MView>,
    current: usize,
    target: usize,
    r: Result<(), MigrationError>,
) -> bool {
    if beyond_reach(steps, current, target) {
        r == Err::<(), MigrationError>(
            MigrationError::SpecifiedSchemaVersion {
                specified: SchemaVersion::Outside(target),
                highest: SchemaVersion::classify(steps.len() as usize, steps.len() as usize),
            },
        )
    } else {
        outcome(steps, current, target, r)
    }
}

/// Whether `r` says that the version of the store could not be read.
pub open spec fn version_unread(r: Result<(), MigrationError>) -> bool {
    r matches Err(MigrationError::RusqliteError { query, .. }) && query@ == "PRAGMA user_version"@
}

/// The way up from `from` to `to` is the way up to any version `mid` in
/// between, followed by the way up from there.
pub proof fn lemma_up_requests_split(steps: Seq<MView>, from: int, mid: int, to: int)
    requires
        from <= mid <= to,
    ensures
        up_requests(steps, from, to) == up_requests(steps, from, mid) + up_requests(
            steps,
            mid,
            to,
        ),
    decreases to - mid,
{
    if mid < to {
        lemma_up_requests_split(steps, from, mid, to - 1);
        assert(up_requests(steps, from, to) =~= up_requests(steps, from, mid) + up_requests(
            steps,
            mid,
            to,
        ));
    } else {
        assert(up_requests(steps, from, to) =~= up_requests(steps, from, mid) + up_requests(
            steps,
            mid,
            to,
        ));
    }
}

/// The way down from `from` to `to` is the way down to any version `mid` in
/// between, followed by the way down from there.
pub proof fn lemma_down_requests_split(steps: Seq<MView>, from: int, mid: int, to: int)
    requires
        to <= mid <= from,
    ensures
        down_requests(steps, from, to) == down_requests(steps, from, mid) + down_requests(
            steps,
            mid,
            to,
        ),
    decreases mid - to,
{
    if to < mid {
        lemma_down_requests_split(steps, from, mid, to + 1);
        assert(down_requests(steps, from, to) =~= down_requests(steps, from, mid)
            + down_requests(steps, mid, to));
    } else {
        assert(down_requests(steps, from, to) =~= down_requests(steps, from, mid)
            + down_requests(steps, mid, to));
    }
}

} // verus!
