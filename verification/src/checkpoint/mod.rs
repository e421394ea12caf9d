//! Checkpoints and rollback.

use vstd::prelude::*;

use crate::checkpoint::git::GitCheckpoint;
use crate::checkpoint::git::RestorePlan;
use crate::checkpoint::git::SavePhase;
use crate::checkpoint::git::SaveRun;
use crate::checkpoint::saga::CompletedStep;
use crate::checkpoint::saga::SagaCoordinator;
use crate::checkpoint::stash::StashLog;
use crate::checkpoint::undo::RollbackAction;
use crate::config::CheckpointConfig;
use crate::config::CheckpointStrategy;
use crate::text;
use crate::types;
use crate::types::Checkpoint;
use crate::types::StepAction;
use crate::types::StepId;

pub mod git;
pub mod laws;
pub mod saga;
pub mod stash;
pub mod undo;

verus! {

/// What is said where there is no backend.
pub open spec fn no_backend() -> Seq<char> {
    "no git checkpoint backend is available for this working directory"@
}

/// The run saves a checkpoint for the step of the session.
pub open spec fn begins_save(
    run: SaveRun,
    session_id: Seq<char>,
    step_id: Seq<char>,
    action: StepAction,
) -> bool {
    &&& run.phase == SavePhase::Staging
    &&& types::is_random_uuid(run.checkpoint_id@)
    &&& run.session_id@ == session_id
    &&& run.step_id@ == step_id
    &&& text::strings(run.files@) == text::strings(action.target_files@)
}

/// `step` is the completed step with this checkpoint. It is undone by restoring the
/// checkpoint, where it has one and can be restored at all.
pub open spec fn is_step(
    step: CompletedStep<Checkpoint>,
    step_id: StepId,
    step_number: u32,
    checkpoint: Option<&Checkpoint>,
    restorable: bool,
    description: String,
) -> bool {
    &&& step.step_id == step_id
    &&& step.step_number == step_number
    &&& step.description == description
    &&& match checkpoint {
        Some(cp) => {
            &&& text::opt_text(step.checkpoint_id) == Some(cp.id@)
            &&& step.compensate is Some <==> restorable
            &&& step.compensate matches Some(kept) ==> types::same_checkpoint(kept, *cp)
        },
        None => step.checkpoint_id is None && step.compensate is None,
    }
}

/// Manages checkpoints and rollback.
///
/// Combines snapshots of the working tree with the saga pattern: each completed
/// step registers the checkpoint that undoes it, and on failure the checkpoints are
/// restored in reverse order.
pub struct CheckpointManager {
    git: Option<GitCheckpoint>,
    saga: SagaCoordinator<Checkpoint>,
    config: CheckpointConfig,
}

impl CheckpointManager {
    /// The directory of the backend, where there is one.
    pub closed spec fn backend(self) -> Option<Seq<char>> {
        match self.git {
            Some(git) => Some(git.dir()),
            None => None,
        }
    }

    /// A backend is available.
    pub open spec fn has_backend(self) -> bool {
        self.backend() is Some
    }

    /// The configuration in force.
    pub closed spec fn settings(self) -> CheckpointConfig {
        self.config
    }

    /// The steps that can be rolled back, oldest first.
    pub closed spec fn steps(self) -> Seq<CompletedStep<Checkpoint>> {
        self.saga.steps()
    }

    #[verifier::type_invariant]
    spec fn is_within_depth(self) -> bool {
        self.saga.wf() && self.saga.limit() == self.config.max_rollback_depth
    }

    /// A manager for the directory. There is a backend where checkpoints are enabled
    /// and taken with git and the directory is inside a git working tree, as
    /// `is_repo` says.
    pub fn new(working_dir: &str, config: CheckpointConfig, is_repo: bool) -> (r:
        CheckpointManager)
        ensures
            r.backend() == (if config.enabled && config.strategy == CheckpointStrategy::Git
                && is_repo {
                Some(working_dir@)
            } else {
                None
            }),
            r.settings() == config,
            r.steps() == Seq::<CompletedStep<Checkpoint>>::empty(),
    {
        let git = if config.enabled && config.strategy == CheckpointStrategy::Git {
            GitCheckpoint::try_new(working_dir, is_repo)
        } else {
            None
        };
        let saga = SagaCoordinator::new(config.max_rollback_depth);
        CheckpointManager { git, saga, config }
    }

    /// Begins to save a checkpoint if the action type warrants it. There is none
    /// where checkpoints are disabled or not taken before this action type.
    pub fn save_if_needed(&self, session_id: &str, step_id: &str, action: &StepAction) -> (r: Result<
        Option<SaveRun>,
        String,
    >)
        ensures
            match r {
                Ok(None) => !self.settings().saves_before(action.action_type@.name()),
                Ok(Some(run)) => self.settings().saves_before(action.action_type@.name())
                    && self.has_backend() && begins_save(run, session_id@, step_id@, *action),
                Err(e) => self.settings().saves_before(action.action_type@.name())
                    && !self.has_backend() && e@ == no_backend(),
            },
    {
        if !self.config.auto_saves(action.action_type.as_str()) {
            return Ok(None);
        }
        match self.save(session_id, step_id, action) {
            Ok(run) => Ok(Some(run)),
            Err(e) => Err(e),
        }
    }

    /// Begins to save a checkpoint that was asked for.
    pub fn save(&self, session_id: &str, step_id: &str, action: &StepAction) -> (r: Result<
        SaveRun,
        String,
    >)
        ensures
            r is Ok <==> self.settings().enabled && self.has_backend(),
            r matches Ok(run) ==> begins_save(run, session_id@, step_id@, *action),
            r matches Err(e) ==> e@ == (if !self.settings().enabled {
                "checkpointing is disabled"@
            } else {
                no_backend()
            }),
    {
        if !self.config.enabled {
            return Err("checkpointing is disabled".to_string());
        }
        match &self.git {
            Some(git) => Ok(git.save(session_id, step_id, &action.target_files)),
            None => Err(
                "no git checkpoint backend is available for this working directory".to_string(),
            ),
        }
    }

    /// Registers a completed step. It is undone by restoring its checkpoint, where
    /// it has one and there is a backend.
    pub fn register_step(
        &mut self,
        step_id: StepId,
        step_number: u32,
        checkpoint: Option<&Checkpoint>,
        description: String,
    )
        ensures
            final(self).settings() == old(self).settings(),
            final(self).backend() == old(self).backend(),
            exists|step: CompletedStep<Checkpoint>| #[trigger]
                is_step(
                    step,
                    step_id,
                    step_number,
                    checkpoint,
                    old(self).has_backend(),
                    description,
                ) && final(self).steps() == saga::appended(
                    old(self).steps(),
                    step,
                    old(self).settings().max_rollback_depth as nat,
                ),
    {
        proof {
            use_type_invariant(&*self);
        }
        let compensate = match (&self.git, checkpoint) {
            (Some(_), Some(cp)) => Some(types::copy_checkpoint(cp)),
            _ => None,
        };
        let checkpoint_id = match checkpoint {
            Some(cp) => Some(cp.id.clone()),
            None => None,
        };
        let ghost step = CompletedStep {
            step_id,
            step_number,
            checkpoint_id,
            compensate,
            description,
        };
        let mut history = SagaCoordinator::new(self.config.max_rollback_depth);
        std::mem::swap(&mut history, &mut self.saga);
        history.register(step_id, step_number, checkpoint_id, compensate, description);
        self.saga = history;
        assert(is_step(
            step,
            step_id,
            step_number,
            checkpoint,
            old(self).has_backend(),
            description,
        ));
    }

    /// Begins to roll back the last `steps_back` steps, or all of them. Their
    /// checkpoints are restored newest first, from where `stashes` has them now.
    pub fn rollback(&mut self, steps_back: Option<u32>, stashes: &StashLog) -> (r: RollbackAction)
        ensures
            final(self).settings() == old(self).settings(),
            final(self).backend() == old(self).backend(),
            begins_rollback(
                old(self).steps(),
                saga::undo_count(old(self).steps().len(), steps_back),
                stashes@,
                final(self).steps(),
                r,
            ),
    {
        let n = self.saga.undo_len(steps_back);
        self.undo(n, stashes)
    }

    /// Begins to roll back to the checkpoint, undoing the step that owns it. Where no
    /// step owns it, nothing changes.
    pub fn rollback_to_checkpoint(&mut self, checkpoint_id: &str, stashes: &StashLog) -> (r: Option<
        RollbackAction,
    >)
        ensures
            final(self).settings() == old(self).settings(),
            final(self).backend() == old(self).backend(),
            match r {
                None => saga::no_owner(old(self).steps(), checkpoint_id@) && final(self).steps()
                    == old(self).steps(),
                Some(action) => exists|i: int| #[trigger]
                    saga::newest_owner(old(self).steps(), checkpoint_id@, i) && begins_rollback(
                        old(self).steps(),
                        (old(self).steps().len() - i) as nat,
                        stashes@,
                        final(self).steps(),
                        action,
                    ),
            },
    {
        match self.saga.owner(checkpoint_id) {
            Some(i) => {
                let n: usize = self.saga.depth() - i;
                Some(self.undo(n, stashes))
            },
            None => None,
        }
    }

    /// Begins to roll back the last `n` steps.
    fn undo(&mut self, n: usize, stashes: &StashLog) -> (r: RollbackAction)
        requires
            n <= old(self).steps().len(),
        ensures
            final(self).settings() == old(self).settings(),
            final(self).backend() == old(self).backend(),
            begins_rollback(old(self).steps(), n as nat, stashes@, final(self).steps(), r),
    {
        proof {
            use_type_invariant(&*self);
        }
        let mut history = SagaCoordinator::new(self.config.max_rollback_depth);
        std::mem::swap(&mut history, &mut self.saga);
        let ghost before = history.steps();
        let steps = history.take_back(n);
        let target = history.newest();
        self.saga = history;
        let mut plans: Vec<Result<RestorePlan, String>> = Vec::new();
        let mut i: usize = 0;
        while i < n
            invariant
                i <= n,
                n <= before.len() <= u32::MAX,
                steps@ == before.skip(before.len() - n),
                plans@.len() <= i,
                undo::are_plans(stashes@, saga::compensations(before, i as nat), plans@),
            decreases n - i,
        {
            let step = &steps[n - 1 - i];
            assert(*step == before[before.len() - i - 1]);
            match &step.compensate {
                Some(checkpoint) => {
                    plans.push(git::plan_restore(checkpoint, stashes));
                },
                None => {},
            }
            i += 1;
        }
        undo::begin(
            plans,
            target,
            Ghost(stashes@),
            Ghost(saga::compensations(before, n as nat)),
        )
    }

    /// How to restore a checkpoint directly, from where `stashes` has it now.
    pub fn restore_checkpoint(&self, checkpoint: &Checkpoint, stashes: &StashLog) -> (r: Result<
        RestorePlan,
        String,
    >)
        ensures
            self.has_backend() ==> git::is_plan(stashes@, *checkpoint, r),
            !self.has_backend() ==> (r matches Err(e) && e@ == no_backend()),
    {
        match &self.git {
            Some(git) => git.restore(checkpoint, stashes),
            None => Err(
                "no git checkpoint backend is available for this working directory".to_string(),
            ),
        }
    }

    /// Number of steps that can be rolled back.
    pub fn depth(&self) -> (r: usize)
        ensures
            r == self.steps().len(),
            r <= self.settings().max_rollback_depth,
    {
        proof {
            use_type_invariant(self);
        }
        self.saga.depth()
    }
}

/// `action` begins a rollback of the last `n` steps, which leaves `after` of the
/// history `before`. The checkpoints of the steps that are gone are restored newest
/// first.
pub open spec fn begins_rollback(
    before: Seq<CompletedStep<Checkpoint>>,
    n: nat,
    saved: Seq<Seq<char>>,
    after: Seq<CompletedStep<Checkpoint>>,
    action: RollbackAction,
) -> bool {
    &&& n <= before.len()
    &&& after == before.take(before.len() - n)
    &&& undo::begins(
        action,
        saved,
        saga::compensations(before, n),
        saga::newest_number(after),
    )
}

}
