//! Renaming an entry of a stash log held in memory.

use crate::error::{fails_with, RenameError};
use crate::log::{head_of, position_fault, EntryView, StashLog};
use crate::message::{checked_message, is_blank, trimmed};
use crate::plan::{
    after_step, after_steps, lemma_steps_apply_prefix, plan_rename, step_applies, step_views,
    steps_apply, Step, StepView,
};
use vstd::prelude::*;

verus! {

/// Why the entry at `position` of a log of `len` entries cannot be renamed
/// to `message`, if it cannot. The message is looked at first.
pub open spec fn rename_fault(len: nat, position: usize, message: Seq<char>) -> Option<
    RenameError,
> {
    if is_blank(message) {
        Some(RenameError::EmptyMessage)
    } else {
        position_fault(len, position)
    }
}

/// Whether a run of `steps` on `log` stops at step `taken` with the failure
/// `e` and leaves `left`: the steps before it could be taken and left that
/// log, and the step itself is a removal at a position that is not there.
pub open spec fn refused_at(
    log: Seq<EntryView>,
    steps: Seq<StepView>,
    taken: int,
    left: Seq<EntryView>,
    e: RenameError,
) -> bool {
    &&& steps_apply(log, steps.take(taken))
    &&& left == after_steps(log, steps.take(taken))
    &&& steps[taken] matches StepView::Remove { position }
    &&& position_fault(left.len(), position as usize) == Some(e)
}

/// The entry that a rename to `message` puts in the log, once the commit
/// with the new message has the id `new_id`.
pub open spec fn renamed_entry(new_id: Seq<u8>, message: Seq<char>) -> EntryView {
    EntryView { commit_id: new_id, message: trimmed(message) }
}

impl StashLog {
    /// Takes one step on the log. A removal at a position that the log does
    /// not have fails as a lookup there would, and leaves the log as it was.
    pub fn apply(&mut self, step: Step) -> (r: Result<(), RenameError>)
        ensures
            final(self)@ == after_step(old(self)@, step@),
            match r {
                Ok(()) => step_applies(old(self)@, step@),
                Err(e) => step@ matches StepView::Remove { position } && position_fault(
                    old(self)@.len(),
                    position as usize,
                ) == Some(e),
            },
    {
        match step {
            Step::Remove { position } => match self.remove(position) {
                Ok(_) => Ok(()),
                Err(e) => Err(e),
            },
            Step::UpdateHead { commit_id, message } => {
                self.update_head(commit_id, message);
                Ok(())
            },
        }
    }

    /// Takes `steps` on the log, in order, and stops at the first that cannot
    /// be taken, which is handed back as the failure of that removal.
    pub fn run(&mut self, steps: &Vec<Step>) -> (r: Result<(), RenameError>)
        ensures
            r is Ok <==> steps_apply(old(self)@, step_views(steps@)),
            r is Ok ==> final(self)@ == after_steps(old(self)@, step_views(steps@)),
            r matches Err(e) ==> exists|taken: int|
                0 <= taken < steps@.len() && refused_at(
                    old(self)@,
                    step_views(steps@),
                    taken,
                    final(self)@,
                    e,
                ),
    {
        let ghost start = self@;
        let ghost all = step_views(steps@);
        let total = steps.len();
        let mut taken: usize = 0;
        while taken < total
            invariant
                start == old(self)@,
                total == steps@.len() == all.len(),
                taken <= total,
                all == step_views(steps@),
                steps_apply(start, all.take(taken as int)),
                self@ == after_steps(start, all.take(taken as int)),
            decreases total - taken,
        {
            proof {
                assert(all.take(taken + 1).drop_last() =~= all.take(taken as int));
            }
            if let Err(e) = self.apply(steps[taken].clone()) {
                proof {
                    assert(refused_at(start, all, taken as int, self@, e));
                    if steps_apply(start, all) {
                        lemma_steps_apply_prefix(start, all, taken + 1);
                    }
                }
                return Err(e);
            }
            taken += 1;
        }
        proof {
            assert(all.take(total as int) =~= all);
        }
        Ok(())
    }

    /// Renames the entry at `position` to `new_message`, trimmed, where
    /// `new_id` is the id of the commit that carries the new message.
    ///
    /// On success the entry at `position` points to `new_id` under the
    /// trimmed message, and nothing else has changed: the log has the length
    /// it had, every other entry is where it was, and the head reference
    /// points to `new_id` if `position` is 0 and where it pointed otherwise.
    /// A message that is blank gives `EmptyMessage`, an empty log
    /// `NoStashes`, a position past the last entry `InvalidIndex`; on each
    /// of them the log is left as it was.
    pub fn rename(&mut self, position: usize, new_message: &str, new_id: Vec<u8>) -> (r: Result<
        (),
        RenameError,
    >)
        ensures
            match r {
                Ok(()) => rename_fault(old(self)@.len(), position, new_message@) is None
                    && final(self)@ == old(self)@.update(
                    position as int,
                    renamed_entry(new_id@, new_message@),
                ),
                Err(e) => rename_fault(old(self)@.len(), position, new_message@) == Some(e)
                    && final(self)@ == old(self)@,
            },
            is_blank(new_message@) ==> fails_with(r, RenameError::EmptyMessage),
            !is_blank(new_message@) && 0 < old(self)@.len() <= position ==> fails_with(
                r,
                RenameError::InvalidIndex { given: position, max: (old(self)@.len() - 1) as usize },
            ),
            r is Err ==> final(self)@ == old(self)@,
            r is Ok ==> final(self)@.len() == old(self)@.len(),
            r is Ok ==> final(self)@[position as int].message == trimmed(new_message@),
            r is Ok ==> final(self)@[position as int].commit_id == new_id@,
            r is Ok ==> forall|i: int|
                0 <= i < old(self)@.len() && i != position ==> final(self)@[i] == old(self)@[i],
            r is Ok && position == 0 ==> head_of(final(self)@) == Some(new_id@),
            r is Ok && position > 0 ==> head_of(final(self)@) == head_of(old(self)@),
    {
        let message = match checked_message(new_message) {
            Ok(message) => message,
            Err(e) => {
                return Err(e);
            },
        };
        match plan_rename(self, position, new_id, message) {
            Ok(steps) => self.run(&steps),
            Err(e) => Err(e),
        }
    }
}

} // verus!
