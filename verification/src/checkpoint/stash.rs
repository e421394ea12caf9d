//! Which stash holds which checkpoint.
//!
//! git numbers its stashes from the newest: what was saved as `stash@{0}` becomes
//! `stash@{1}` with the next stash, and so on.

use vstd::prelude::*;

use crate::text;
use crate::types::Checkpoint;
use crate::types::CheckpointType;

verus! {

/// The name of the stash with `newer` stashes before it in the list.
pub open spec fn stash_name(newer: nat) -> Seq<char> {
    "stash@{"@ + text::decimal(newer) + "}"@
}

/// How many stashes were saved after the last one for this checkpoint.
pub open spec fn newer_stashes(saved: Seq<Seq<char>>, id: Seq<char>) -> Option<nat>
    decreases saved.len(),
{
    if saved.len() == 0 {
        None
    } else if saved.last() == id {
        Some(0)
    } else {
        match newer_stashes(saved.drop_last(), id) {
            Some(n) => Some(n + 1),
            None => None,
        }
    }
}

/// Where the state of the checkpoint is found now. A stash that is not among the
/// saved ones is looked for where it was when it was saved.
pub open spec fn current_reference(saved: Seq<Seq<char>>, checkpoint: Checkpoint) -> Seq<char> {
    match newer_stashes(saved, checkpoint.id@) {
        Some(n) => if checkpoint.checkpoint_type == CheckpointType::GitStash {
            stash_name(n)
        } else {
            checkpoint.reference@
        },
        None => checkpoint.reference@,
    }
}

/// The stashes once the checkpoint was saved. Only a stash is added.
pub open spec fn after_save(saved: Seq<Seq<char>>, checkpoint: Checkpoint) -> Seq<Seq<char>> {
    if checkpoint.checkpoint_type == CheckpointType::GitStash {
        saved.push(checkpoint.id@)
    } else {
        saved
    }
}

/// The stashes once the one of the checkpoint was dropped.
pub open spec fn after_drop(saved: Seq<Seq<char>>, checkpoint: Checkpoint) -> Seq<Seq<char>> {
    match newer_stashes(saved, checkpoint.id@) {
        Some(n) => if checkpoint.checkpoint_type == CheckpointType::GitStash {
            saved.remove(saved.len() - 1 - n)
        } else {
            saved
        },
        None => saved,
    }
}

/// The checkpoints that were saved as stashes and not dropped, oldest first. The
/// numbers are those of git as long as nobody else pushes or drops stashes in the
/// same repository.
#[derive(Debug)]
pub struct StashLog {
    ids: Vec<String>,
}

impl View for StashLog {
    type V = Seq<Seq<char>>;

    closed spec fn view(&self) -> Seq<Seq<char>> {
        text::strings(self.ids@)
    }
}

impl StashLog {
    /// No stash was saved yet.
    pub fn new() -> (r: StashLog)
        ensures
            r@ == Seq::<Seq<char>>::empty(),
    {
        let r = StashLog { ids: Vec::new() };
        assert(r@ =~= Seq::<Seq<char>>::empty());
        r
    }

    /// Notes a checkpoint that was saved. Only a stash moves the others.
    pub fn saved(&mut self, checkpoint: &Checkpoint)
        ensures
            final(self)@ == after_save(old(self)@, *checkpoint),
    {
        if checkpoint.checkpoint_type == CheckpointType::GitStash {
            self.ids.push(checkpoint.id.clone());
            assert(self@ =~= old(self)@.push(checkpoint.id@));
        }
    }

    /// Notes a checkpoint whose stash was dropped.
    pub fn dropped(&mut self, checkpoint: &Checkpoint)
        ensures
            final(self)@ == after_drop(old(self)@, *checkpoint),
    {
        if checkpoint.checkpoint_type == CheckpointType::GitStash {
            match self.position(checkpoint.id.as_str()) {
                Some(i) => {
                    let _ = self.ids.remove(i);
                    assert(self@ =~= old(self)@.remove(i as int));
                },
                None => {},
            }
        }
    }

    /// The place of the last stash for this checkpoint.
    fn position(&self, id: &str) -> (r: Option<usize>)
        ensures
            r is Some <==> newer_stashes(self@, id@) is Some,
            r matches Some(i) ==> i < self@.len() && newer_stashes(self@, id@) == Some(
                (self@.len() - 1 - i) as nat,
            ),
    {
        let total = self.ids.len();
        let mut i: usize = total;
        assert(self@.take(total as int) =~= self@);
        while i > 0 && !text::str_eq(self.ids[i - 1].as_str(), id)
            invariant
                i <= total,
                total == self.ids@.len(),
                newer_stashes(self@, id@) == (match newer_stashes(self@.take(i as int), id@) {
                    Some(n) => Some((n + (total - i)) as nat),
                    None => None,
                }),
            decreases i,
        {
            assert(self@.take(i as int).drop_last() =~= self@.take(i - 1));
            i -= 1;
        }
        if i == 0 {
            None
        } else {
            Some(i - 1)
        }
    }

    /// Where the state of the checkpoint is found now.
    pub fn reference_of(&self, checkpoint: &Checkpoint) -> (r: String)
        ensures
            r@ == current_reference(self@, *checkpoint),
    {
        if checkpoint.checkpoint_type != CheckpointType::GitStash {
            return checkpoint.reference.clone();
        }
        match self.position(checkpoint.id.as_str()) {
            Some(i) => {
                let newer: u64 = (self.ids.len() - 1 - i) as u64;
                let mut name = "stash@{".to_string();
                name.append(text::to_decimal(newer).as_str());
                name.append("}");
                name
            },
            None => checkpoint.reference.clone(),
        }
    }
}

}
