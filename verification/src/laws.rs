//! What holds of every set of migrations, proved from the definitions that
//! the contracts of the engine are written in.

use vstd::prelude::*;
use crate::error::{MigrationDefinitionError, MigrationError};
use crate::plan::{
    down_requests, down_run, first_without_down, leaves_alone, lemma_down_requests_split,
    lemma_first_without_down, outcome, plan, revertible, step_down_requests, step_up_requests,
    up_requests, up_run, Plan,
};
use crate::session::{ran, Request};
use crate::step::MView;

verus! {

/// Whether a request is one that a step makes: a script, a foreign key check
/// or a hook.
pub open spec fn is_step_request(request: Request) -> bool {
    request is Batch || request is ForeignKeyCheck || request is UpHook || request is DownHook
}

/// The steps on the way up ask for scripts, checks and hooks, and for nothing
/// else.
pub proof fn lemma_up_requests_are_step_requests(steps: Seq<MView>, from: int, to: int)
    ensures
        forall|i: int|
            0 <= i < up_requests(steps, from, to).len() ==> is_step_request(
                #[trigger] up_requests(steps, from, to)[i],
            ),
    decreases to - from,
{
    if from < to {
        lemma_up_requests_are_step_requests(steps, from, to - 1);
        let head = up_requests(steps, from, to - 1);
        let tail = step_up_requests(steps[to - 1]);
        assert forall|i: int| 0 <= i < (head + tail).len() implies is_step_request(
            #[trigger] (head + tail)[i],
        ) by {
            if i < head.len() {
                assert((head + tail)[i] == head[i]);
            } else {
                assert((head + tail)[i] == tail[i - head.len()]);
            }
        }
    }
}

/// The steps on the way down ask for scripts and hooks, and for nothing else.
pub proof fn lemma_down_requests_are_step_requests(steps: Seq<MView>, from: int, to: int)
    ensures
        forall|i: int|
            0 <= i < down_requests(steps, from, to).len() ==> is_step_request(
                #[trigger] down_requests(steps, from, to)[i],
            ),
    decreases from - to,
{
    if from > to {
        lemma_down_requests_are_step_requests(steps, from, to + 1);
        let head = down_requests(steps, from, to + 1);
        let tail = step_down_requests(steps[to]);
        assert forall|i: int| 0 <= i < (head + tail).len() implies is_step_request(
            #[trigger] (head + tail)[i],
        ) by {
            if i < head.len() {
                assert((head + tail)[i] == head[i]);
            } else {
                assert((head + tail)[i] == tail[i - head.len()]);
            }
        }
    }
}

/// Idempotence. A store that is where it is asked to be is left alone,
/// whatever the steps are: the attempt succeeds, and nothing is asked of the
/// store. In particular a store at the last version is left alone by a
/// request for the latest version.
pub proof fn law_arrived_stays(steps: Seq<MView>, version: usize, r: Result<(), MigrationError>)
    requires
        outcome(steps, version, version, r),
    ensures
        r is Ok,
        leaves_alone(steps, version, version),
{
}

/// Atomicity, on the way up. In a run that failed, no request that succeeded
/// is the commit: the request that failed is the last one, and before it
/// stand requests of the steps and, only where it is the commit itself that
/// failed, the setting of the version.
pub proof fn law_failed_up_run_commits_nothing(
    steps: Seq<MView>,
    current: usize,
    target: usize,
    before: Seq<Request>,
    after: Seq<Request>,
    e: MigrationError,
)
    requires
        current <= target <= steps.len(),
        ran(before, after, up_run(steps, current, target), Err(e)),
    ensures
        after.len() > before.len(),
        forall|i: int| before.len() <= i < after.len() - 1 ==> !(#[trigger] after[i] is Commit),
        forall|i: int|
            before.len() <= i < after.len() - 1 && #[trigger] after[i] is SetUserVersion
                ==> after.last() is Commit,
{
    lemma_up_requests_are_step_requests(steps, current as int, target as int);
    let stepped = up_requests(steps, current as int, target as int);
    let full = up_run(steps, current, target);
    assert forall|i: int| before.len() <= i < after.len() - 1 implies !(#[trigger] after[i]
        is Commit) && (after[i] is SetUserVersion ==> after.last() is Commit) by {
        let at = i - before.len();
        assert(after[i] == full[at]);
        if at < stepped.len() {
            assert(is_step_request(stepped[at]));
        }
    }
}

/// Atomicity, on the way down. In a run that failed, no request that
/// succeeded is the commit: the request that failed is the last one, and
/// before it stand requests of the steps and, only where it is the commit
/// itself that failed, the setting of the version.
pub proof fn law_failed_down_run_commits_nothing(
    steps: Seq<MView>,
    current: usize,
    target: usize,
    before: Seq<Request>,
    after: Seq<Request>,
    e: MigrationError,
)
    requires
        target <= current <= steps.len(),
        ran(before, after, down_run(steps, current, target), Err(e)),
    ensures
        after.len() > before.len(),
        forall|i: int| before.len() <= i < after.len() - 1 ==> !(#[trigger] after[i] is Commit),
        forall|i: int|
            before.len() <= i < after.len() - 1 && #[trigger] after[i] is SetUserVersion
                ==> after.last() is Commit,
{
    lemma_down_requests_are_step_requests(steps, current as int, target as int);
    let stepped = down_requests(steps, current as int, target as int);
    let full = down_run(steps, current, target);
    assert forall|i: int| before.len() <= i < after.len() - 1 implies !(#[trigger] after[i]
        is Commit) && (after[i] is SetUserVersion ==> after.last() is Commit) by {
        let at = i - before.len();
        assert(after[i] == full[at]);
        if at < stepped.len() {
            assert(is_step_request(stepped[at]));
        }
    }
}

/// A run that succeeded has asked for everything: every step, then the
/// target as the new version, then the commit, and the commit is the last
/// thing it asked for.
pub proof fn law_run_ends_in_commit(
    steps: Seq<MView>,
    current: usize,
    target: usize,
    before: Seq<Request>,
    after: Seq<Request>,
    upward: bool,
)
    requires
        ran(
            before,
            after,
            if upward {
                up_run(steps, current, target)
            } else {
                down_run(steps, current, target)
            },
            Ok(()),
        ),
    ensures
        after.len() >= before.len() + 2,
        after.last() == Request::Commit,
        after[after.len() - 2] == Request::SetUserVersion(target as u32),
{
}

/// Failing fast on the way down. If one of the steps that would have to be
/// reverted has no reverse script, the attempt fails, the failure names the
/// lowest such step, and nothing is asked of the store.
pub proof fn law_revert_needs_every_reverse_script(
    steps: Seq<MView>,
    current: usize,
    target: usize,
    i: int,
    r: Result<(), MigrationError>,
)
    requires
        target <= i < current <= steps.len(),
        steps[i].down is None,
        outcome(steps, current, target, r),
    ensures
        r matches Err(
            MigrationError::MigrationDefinition(
                MigrationDefinitionError::DownNotDefined { migration_index },
            ),
        ) && target <= migration_index <= i && steps[migration_index as int].down is None,
        leaves_alone(steps, current, target),
{
    lemma_first_without_down(steps, target as int, current as int);
    let found = first_without_down(steps, target as int, current as int);
    assert(!revertible(steps, target as int, current as int));
    if found->0 > i {
        assert(revertible(steps, target as int, found->0));
    }
}

/// A store that is ahead of the known steps is not taken down: the attempt
/// fails, and nothing is asked of the store.
pub proof fn law_store_ahead_is_left_alone(
    steps: Seq<MView>,
    current: usize,
    target: usize,
    r: Result<(), MigrationError>,
)
    requires
        target < current,
        current > steps.len(),
        outcome(steps, current, target, r),
    ensures
        r == Err::<(), MigrationError>(
            MigrationError::MigrationDefinition(MigrationDefinitionError::DatabaseTooFarAhead),
        ),
        leaves_alone(steps, current, target),
{
}

/// The round trip. Where every step can be reverted, none of the three legs
/// from nothing to the last version, back to nothing and up again is
/// refused: each is planned as a run, upward, downward and upward.
pub proof fn law_round_trip_is_planned(steps: Seq<MView>)
    requires
        0 < steps.len() <= usize::MAX,
        revertible(steps, 0, steps.len() as int),
    ensures
        plan(steps, 0, steps.len() as usize) == Plan::Up,
        plan(steps, steps.len() as usize, 0) == Plan::Down,
{
    lemma_first_without_down(steps, 0, steps.len() as int);
}

/// The way down undoes the way up in reverse: the way down from `to` to
/// `from` begins with the step that the way up from `from` to `to` ends
/// with, and goes on as the way down from the version below.
pub proof fn law_down_reverts_the_last_step_first(steps: Seq<MView>, from: int, to: int)
    requires
        from < to,
    ensures
        down_requests(steps, to, from) == step_down_requests(steps[to - 1]) + down_requests(
            steps,
            to - 1,
            from,
        ),
{
    lemma_down_requests_split(steps, to, to - 1, from);
    assert(down_requests(steps, to, to) =~= Seq::<Request>::empty());
    assert(down_requests(steps, to, to - 1) =~= step_down_requests(steps[to - 1]));
}

/// Whether the steps with an index in `[lo, hi)` are made of scripts alone:
/// no hooks, no foreign key check.
pub open spec fn plain(steps: Seq<MView>, lo: int, hi: int) -> bool {
    forall|i: int|
        lo <= i < hi ==> {
            &&& (#[trigger] steps[i]).up_hook is None
            &&& steps[i].down_hook is None
            &&& !steps[i].foreign_key_check
        }
}

/// Ascending order. Where the steps are made of scripts alone, the way up
/// from `from` to `to` runs the forward scripts of the steps `from`,
/// `from + 1` and so on, one for each version gained, and nothing else.
pub proof fn law_scripts_run_in_ascending_order(steps: Seq<MView>, from: int, to: int)
    requires
        from <= to,
        plain(steps, from, to),
    ensures
        up_requests(steps, from, to) == Seq::new(
            (to - from) as nat,
            |k: int| Request::Batch(steps[from + k].up),
        ),
    decreases to - from,
{
    if from < to {
        law_scripts_run_in_ascending_order(steps, from, to - 1);
        assert(plain(steps, from, to - 1));
        assert(steps[to - 1].up_hook is None);
        assert(step_up_requests(steps[to - 1]) =~= seq![Request::Batch(steps[to - 1].up)]);
    }
    assert(up_requests(steps, from, to) =~= Seq::new(
        (to - from) as nat,
        |k: int| Request::Batch(steps[from + k].up),
    ));
}

/// Descending order. Where the steps are made of scripts alone and each can
/// be reverted, the way down from `from` to `to` runs the reverse scripts of
/// the steps `from - 1`, `from - 2` and so on, one for each version lost,
/// and nothing else.
pub proof fn law_scripts_revert_in_descending_order(steps: Seq<MView>, from: int, to: int)
    requires
        to <= from,
        plain(steps, to, from),
        revertible(steps, to, from),
    ensures
        down_requests(steps, from, to) == Seq::new(
            (from - to) as nat,
            |k: int| Request::Batch(steps[from - 1 - k].down->0),
        ),
    decreases from - to,
{
    if to < from {
        law_scripts_revert_in_descending_order(steps, from, to + 1);
        assert(steps[to].down_hook is None);
        assert(step_down_requests(steps[to]) =~= seq![Request::Batch(steps[to].down->0)]);
    }
    assert(down_requests(steps, from, to) =~= Seq::new(
        (from - to) as nat,
        |k: int| Request::Batch(steps[from - 1 - k].down->0),
    ));
}

} // verus!
