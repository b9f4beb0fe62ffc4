//! Renaming as a plan: the steps that put a renamed entry back at the
//! position of the entry it replaces, and what running them does to a log.
//!
//! A log can only lose an entry at a position and gain one at position 0.
//! To replace the entry at position `k`, the `k + 1` newest entries are
//! removed, the renamed entry is recorded, and the `k` entries that were
//! newer are recorded again, oldest first.

use crate::error::RenameError;
use crate::log::{entry_views, position_fault, EntryView, StashLog};
use vstd::prelude::*;

verus! {

/// One change to the stash log and its head reference.
#[derive(Debug, PartialEq, Eq)]
pub enum Step {
    /// Delete the entry at `position`; the head reference follows the entry
    /// that is then at position 0.
    Remove { position: usize },
    /// Move the head reference to `commit_id` and record the move under
    /// `message`, which puts a new entry at position 0.
    UpdateHead { commit_id: Vec<u8>, message: String },
}

/// What a [`Step`] stands for.
pub enum StepView {
    Remove { position: nat },
    UpdateHead { commit_id: Seq<u8>, message: Seq<char> },
}

impl View for Step {
    type V = StepView;

    open spec fn view(&self) -> StepView {
        match self {
            Step::Remove { position } => StepView::Remove { position: *position as nat },
            Step::UpdateHead { commit_id, message } => StepView::UpdateHead {
                commit_id: commit_id@,
                message: message@,
            },
        }
    }
}

impl Clone for Step {
    fn clone(&self) -> (copy: Self)
        ensures
            copy@ == self@,
    {
        match self {
            Step::Remove { position } => Step::Remove { position: *position },
            Step::UpdateHead { commit_id, message } => Step::UpdateHead {
                commit_id: commit_id.clone(),
                message: message.clone(),
            },
        }
    }
}

/// The views of a run of steps, in the same order.
pub open spec fn step_views(steps: Seq<Step>) -> Seq<StepView> {
    steps.map_values(|s: Step| s@)
}

/// Whether `step` can be taken on `log`: a removal needs an entry at its
/// position.
pub open spec fn step_applies(log: Seq<EntryView>, step: StepView) -> bool {
    match step {
        StepView::Remove { position } => position < log.len(),
        StepView::UpdateHead { .. } => true,
    }
}

/// The log after `step`; a step that cannot be taken leaves it as it is.
pub open spec fn after_step(log: Seq<EntryView>, step: StepView) -> Seq<EntryView> {
    match step {
        StepView::Remove { position } => if position < log.len() {
            log.remove(position as int)
        } else {
            log
        },
        StepView::UpdateHead { commit_id, message } => seq![EntryView { commit_id, message }]
            + log,
    }
}

/// The log after `steps`, taken in order.
pub open spec fn after_steps(log: Seq<EntryView>, steps: Seq<StepView>) -> Seq<EntryView>
    decreases steps.len(),
{
    if steps.len() == 0 {
        log
    } else {
        after_step(after_steps(log, steps.drop_last()), steps.last())
    }
}

/// Whether each of `steps` can be taken when its turn comes.
pub open spec fn steps_apply(log: Seq<EntryView>, steps: Seq<StepView>) -> bool
    decreases steps.len(),
{
    steps.len() == 0 || (steps_apply(log, steps.drop_last()) && step_applies(
        after_steps(log, steps.drop_last()),
        steps.last(),
    ))
}

/// Steps that can all be taken can be taken up to any point.
pub proof fn lemma_steps_apply_prefix(log: Seq<EntryView>, steps: Seq<StepView>, taken: int)
    requires
        steps_apply(log, steps),
        0 <= taken <= steps.len(),
    ensures
        steps_apply(log, steps.take(taken)),
    decreases steps.len(),
{
    if taken < steps.len() {
        lemma_steps_apply_prefix(log, steps.drop_last(), taken);
        assert(steps.drop_last().take(taken) =~= steps.take(taken));
    } else {
        assert(steps.take(taken) =~= steps);
    }
}

/// The step that records `entry` at position 0.
pub open spec fn record(entry: EntryView) -> StepView {
    StepView::UpdateHead { commit_id: entry.commit_id, message: entry.message }
}

/// The steps that replace the entry at `position` of `log` by `renamed`.
pub open spec fn rename_steps(log: Seq<EntryView>, position: int, renamed: EntryView) -> Seq<
    StepView,
> {
    Seq::new((position + 1) as nat, |i: int| StepView::Remove { position: 0 }) + seq![
        record(renamed),
    ] + Seq::new(position as nat, |i: int| record(log[position - 1 - i]))
}

/// The log that the first `taken` of the steps of a rename leave: while the
/// newest entries are being removed, the rest of the log; from then on, the
/// entries already recorded again, then the renamed entry, then the entries
/// that were older.
pub open spec fn rename_progress(
    log: Seq<EntryView>,
    position: int,
    renamed: EntryView,
    taken: int,
) -> Seq<EntryView> {
    if taken <= position + 1 {
        log.skip(taken)
    } else {
        log.subrange(2 * position + 2 - taken, position) + seq![renamed] + log.skip(position + 1)
    }
}

/// Every step of a rename can be taken when its turn comes, and the first
/// `taken` of them leave the log that `rename_progress` describes.
pub proof fn lemma_rename_progress(
    log: Seq<EntryView>,
    position: int,
    renamed: EntryView,
    taken: int,
)
    requires
        0 <= position < log.len(),
        0 <= taken <= 2 * position + 2,
    ensures
        steps_apply(log, rename_steps(log, position, renamed).take(taken)),
        after_steps(log, rename_steps(log, position, renamed).take(taken)) == rename_progress(
            log,
            position,
            renamed,
            taken,
        ),
    decreases taken,
{
    if taken > 0 {
        let steps = rename_steps(log, position, renamed);
        lemma_rename_progress(log, position, renamed, taken - 1);
        assert(steps.take(taken).drop_last() =~= steps.take(taken - 1));
    }
}

/// Running the steps of a rename replaces the entry at `position` by
/// `renamed` and changes nothing else: no entry is lost or gained, and every
/// other entry keeps its position.
pub proof fn lemma_rename_steps_replace(log: Seq<EntryView>, position: int, renamed: EntryView)
    requires
        0 <= position < log.len(),
    ensures
        steps_apply(log, rename_steps(log, position, renamed)),
        after_steps(log, rename_steps(log, position, renamed)) == log.update(position, renamed),
{
    let steps = rename_steps(log, position, renamed);
    lemma_rename_progress(log, position, renamed, 2 * position + 2);
    assert(steps.take(2 * position + 2) =~= steps);
}

/// The steps that replace the entry at `position` of `log` by one that
/// points to `new_id` under `message`: each can be taken when its turn
/// comes, and together they change that entry and nothing else. An empty
/// log gives `NoStashes`, a position past the last entry gives
/// `InvalidIndex`.
pub fn plan_rename(log: &StashLog, position: usize, new_id: Vec<u8>, message: String) -> (r:
    Result<Vec<Step>, RenameError>)
    ensures
        match r {
            Ok(steps) => {
                let renamed = EntryView { commit_id: new_id@, message: message@ };
                &&& position_fault(log@.len(), position) is None
                &&& step_views(steps@) == rename_steps(log@, position as int, renamed)
                &&& steps_apply(log@, step_views(steps@))
                &&& after_steps(log@, step_views(steps@)) == log@.update(position as int, renamed)
            },
            Err(e) => position_fault(log@.len(), position) == Some(e),
        },
{
    let n = log.len();
    if n == 0 {
        return Err(RenameError::NoStashes);
    }
    if position >= n {
        return Err(RenameError::InvalidIndex { given: position, max: n - 1 });
    }
    let ghost renamed = EntryView { commit_id: new_id@, message: message@ };
    let ghost goal = rename_steps(log@, position as int, renamed);
    let entries = log.entries();
    let mut steps: Vec<Step> = Vec::new();
    let mut removed: usize = 0;
    while removed <= position
        invariant
            position < n,
            removed <= position + 1,
            step_views(steps@) =~= goal.take(removed as int),
            goal == rename_steps(log@, position as int, renamed),
        decreases position + 1 - removed,
    {
        steps.push(Step::Remove { position: 0 });
        proof {
            assert(goal.take(removed + 1) =~= goal.take(removed as int).push(goal[removed as int]));
        }
        removed += 1;
    }
    steps.push(Step::UpdateHead { commit_id: new_id, message });
    let mut left: usize = position;
    while left > 0
        invariant
            position < n == log@.len(),
            left <= position,
            entry_views(entries@) == log@,
            step_views(steps@) =~= goal.take(2 * position + 2 - left),
            goal == rename_steps(log@, position as int, renamed),
        decreases left,
    {
        left -= 1;
        let entry = entries[left].clone();
        let ghost at = 2 * position + 1 - left;
        steps.push(Step::UpdateHead { commit_id: entry.commit_id, message: entry.message });
        proof {
            assert(goal.take(at + 1) =~= goal.take(at).push(goal[at]));
        }
    }
    proof {
        assert(goal.take(2 * position + 2) =~= goal);
        lemma_rename_steps_replace(log@, position as int, renamed);
    }
    Ok(steps)
}

} // verus!
