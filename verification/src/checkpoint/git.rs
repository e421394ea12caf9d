//! Checkpoints in a git working tree.
//!
//! What to run and what to make of the answers is decided here. Running git is up
//! to the caller.

use vstd::prelude::*;

use crate::checkpoint::stash;
use crate::checkpoint::stash::StashLog;
use crate::number::Timestamp;
use crate::text;
use crate::types;
use crate::types::Checkpoint;
use crate::types::CheckpointType;

verus! {

// ── Commands ─────────────────────────────────────────────────

/// The arguments that stage the files, or everything where none are given.
pub open spec fn stage_args(files: Seq<Seq<char>>) -> Seq<Seq<char>> {
    if files.len() == 0 {
        seq!["add"@, "-A"@]
    } else {
        seq!["add"@, "--"@] + files
    }
}

/// The message under which the changes are stashed.
pub open spec fn stash_message(session_id: Seq<char>, step_id: Seq<char>) -> Seq<char> {
    "carapace:"@ + session_id + ":"@ + step_id
}

/// The arguments that stash what was staged.
pub open spec fn stash_args(session_id: Seq<char>, step_id: Seq<char>) -> Seq<Seq<char>> {
    seq!["stash"@, "push"@, "-m"@, stash_message(session_id, step_id)]
}

/// The arguments that name the current commit.
pub open spec fn head_args() -> Seq<Seq<char>> {
    seq!["rev-parse"@, "HEAD"@]
}

/// git found nothing to stash.
pub open spec fn nothing_stashed(output: Seq<char>) -> bool {
    text::contains(output, "No local changes"@) || text::contains(output, "No stash"@)
}

/// The type of checkpoint that a reference stands for.
pub open spec fn reference_type(reference: Seq<char>) -> CheckpointType {
    if "stash@"@.is_prefix_of(reference) {
        CheckpointType::GitStash
    } else {
        CheckpointType::GitCommit
    }
}

/// What a finished git process makes of a command: its output, or what is said of
/// the failure. `code` is missing where the process was ended by a signal.
pub open spec fn git_reply(
    args: Seq<Seq<char>>,
    code: Option<i32>,
    stdout: Seq<char>,
    stderr: Seq<char>,
) -> Result<Seq<char>, Seq<char>> {
    if code == Some(0i32) || text::contains(stderr, "No local changes"@) || text::contains(
        stdout,
        "No local changes"@,
    ) {
        Ok(stdout)
    } else {
        Err(
            "git "@ + text::joined(args, " "@) + " failed (exit "@ + text::signed_decimal(
                match code {
                    Some(c) => c as int,
                    None => -1,
                },
            ) + "): "@ + text::trim(stderr),
        )
    }
}

/// What a finished git process makes of a command. Some commands fail where there
/// is just nothing to do, which is no error.
pub fn interpret(args: &Vec<String>, code: Option<i32>, stdout: &str, stderr: &str) -> (r: Result<
    String,
    String,
>)
    ensures
        r is Ok <==> git_reply(text::strings(args@), code, stdout@, stderr@) is Ok,
        r matches Ok(s) ==> git_reply(text::strings(args@), code, stdout@, stderr@) == Ok::<
            Seq<char>,
            Seq<char>,
        >(s@),
        r matches Err(e) ==> git_reply(text::strings(args@), code, stdout@, stderr@) == Err::<
            Seq<char>,
            Seq<char>,
        >(e@),
{
    let success = match code {
        Some(c) => c == 0,
        None => false,
    };
    if success || text::has_substring(stderr, "No local changes") || text::has_substring(
        stdout,
        "No local changes",
    ) {
        return Ok(stdout.to_string());
    }
    let shown: i32 = match code {
        Some(c) => c,
        None => -1,
    };
    let mut m = "git ".to_string();
    m.append(text::join(args, " ").as_str());
    m.append(" failed (exit ");
    m.append(text::to_signed_decimal(shown).as_str());
    m.append("): ");
    m.append(text::trim_spaces(stderr));
    Err(m)
}

// ── Saving ───────────────────────────────────────────────────

/// How far the saving of a checkpoint has come.
#[derive(Debug, Clone, Copy, PartialEq, Eq, Structural)]
pub enum SavePhase {
    /// The files are being staged.
    Staging,
    /// The staged changes are being stashed.
    Stashing,
    /// There was nothing to stash, and the current commit is being read.
    ReadingHead,
}

/// A checkpoint that is being saved.
#[derive(Debug)]
pub struct SaveRun {
    pub phase: SavePhase,
    pub checkpoint_id: String,
    pub session_id: String,
    pub step_id: String,
    pub files: Vec<String>,
}

/// What comes next when a checkpoint is saved.
#[derive(Debug)]
pub enum SaveAction {
    /// Run git with the arguments of the run and report the reply.
    Run(SaveRun),
    /// The checkpoint is saved.
    Saved(Checkpoint),
    /// The checkpoint could not be saved.
    Failed(String),
}

impl SaveRun {
    /// The arguments of the git command to run.
    pub open spec fn args(self) -> Seq<Seq<char>> {
        match self.phase {
            SavePhase::Staging => stage_args(text::strings(self.files@)),
            SavePhase::Stashing => stash_args(self.session_id@, self.step_id@),
            SavePhase::ReadingHead => head_args(),
        }
    }

    /// This and `other` save the same checkpoint.
    pub open spec fn same_target(self, other: SaveRun) -> bool {
        &&& self.checkpoint_id@ == other.checkpoint_id@
        &&& self.session_id@ == other.session_id@
        &&& self.step_id@ == other.step_id@
        &&& text::strings(self.files@) == text::strings(other.files@)
    }

    /// `checkpoint` is what this run saves, under the given reference.
    pub open spec fn saves(
        self,
        checkpoint: Checkpoint,
        reference: Seq<char>,
        now: Timestamp,
    ) -> bool {
        &&& checkpoint.id@ == self.checkpoint_id@
        &&& checkpoint.session_id@ == self.session_id@
        &&& checkpoint.step_id@ == self.step_id@
        &&& checkpoint.checkpoint_type == reference_type(reference)
        &&& checkpoint.reference@ == reference
        &&& text::strings(checkpoint.files_affected@) == text::strings(self.files@)
        &&& checkpoint.created_at == now
    }

    /// What comes after the reply of git to the command of this run.
    pub open spec fn leads_to(
        self,
        reply: Result<String, String>,
        now: Timestamp,
        next: SaveAction,
    ) -> bool {
        match reply {
            Err(e) => next matches SaveAction::Failed(m) && m@ == e@,
            Ok(output) => match self.phase {
                SavePhase::Staging => {
                    next matches SaveAction::Run(run) && run.phase == SavePhase::Stashing
                        && run.same_target(self)
                },
                SavePhase::Stashing => if nothing_stashed(output@) {
                    next matches SaveAction::Run(run) && run.phase == SavePhase::ReadingHead
                        && run.same_target(self)
                } else {
                    next matches SaveAction::Saved(c) && self.saves(c, "stash@{0}"@, now)
                },
                SavePhase::ReadingHead => {
                    next matches SaveAction::Saved(c) && self.saves(c, text::trim(output@), now)
                },
            },
        }
    }

    /// The arguments of the git command to run.
    pub fn command(&self) -> (r: Vec<String>)
        ensures
            text::strings(r@) == self.args(),
    {
        match self.phase {
            SavePhase::Staging => {
                if self.files.len() == 0 {
                    let out = text::owned(vec!["add", "-A"]);
                    assert(text::strings(out@) =~= self.args());
                    out
                } else {
                    let mut out = text::owned(vec!["add", "--"]);
                    let ghost head = out@;
                    let mut files = self.files.clone();
                    assert(files@ =~= self.files@);
                    out.append(&mut files);
                    assert(text::strings(head) =~= seq!["add"@, "--"@]);
                    assert(text::strings(out@) =~= text::strings(head) + text::strings(
                        self.files@,
                    ));
                    out
                }
            },
            SavePhase::Stashing => {
                let mut m = "carapace:".to_string();
                m.append(self.session_id.as_str());
                m.append(":");
                m.append(self.step_id.as_str());
                let out = text::owned(vec!["stash", "push", "-m", m.as_str()]);
                assert(text::strings(out@) =~= self.args());
                out
            },
            SavePhase::ReadingHead => {
                let out = text::owned(vec!["rev-parse", "HEAD"]);
                assert(text::strings(out@) =~= self.args());
                out
            },
        }
    }

    /// The checkpoint under the given reference.
    fn saved(self, reference: String, now: Timestamp) -> (r: Checkpoint)
        ensures
            self.saves(r, reference@, now),
    {
        let checkpoint_type = if text::has_prefix(reference.as_str(), "stash@") {
            CheckpointType::GitStash
        } else {
            CheckpointType::GitCommit
        };
        Checkpoint {
            id: self.checkpoint_id,
            session_id: self.session_id,
            step_id: self.step_id,
            checkpoint_type,
            reference,
            files_affected: self.files,
            created_at: now,
        }
    }

    /// The same run in another phase.
    fn in_phase(self, phase: SavePhase) -> (r: SaveRun)
        ensures
            r.phase == phase,
            r.same_target(self),
    {
        SaveRun {
            phase,
            checkpoint_id: self.checkpoint_id,
            session_id: self.session_id,
            step_id: self.step_id,
            files: self.files,
        }
    }

    /// What comes after the reply of git to the command of this run.
    pub fn next(self, reply: Result<String, String>, now: Timestamp) -> (r: SaveAction)
        ensures
            self.leads_to(reply, now, r),
    {
        match reply {
            Err(e) => SaveAction::Failed(e),
            Ok(output) => match self.phase {
                SavePhase::Staging => SaveAction::Run(self.in_phase(SavePhase::Stashing)),
                SavePhase::Stashing => {
                    if text::has_substring(output.as_str(), "No local changes")
                        || text::has_substring(output.as_str(), "No stash") {
                        SaveAction::Run(self.in_phase(SavePhase::ReadingHead))
                    } else {
                        SaveAction::Saved(self.saved("stash@{0}".to_string(), now))
                    }
                },
                SavePhase::ReadingHead => {
                    let reference = text::trim_spaces(output.as_str()).to_string();
                    SaveAction::Saved(self.saved(reference, now))
                },
            },
        }
    }
}

// ── Backend ──────────────────────────────────────────────────

/// How to restore a checkpoint.
#[derive(Debug)]
pub struct RestorePlan {
    /// The arguments of the git command.
    pub args: Vec<String>,
    /// What is said when the command fails.
    pub on_failure: &'static str,
}

/// The arguments that restore a checkpoint, and what is said when they fail.
pub open spec fn restore_args(kind: CheckpointType, reference: Seq<char>) -> Option<
    (Seq<Seq<char>>, Seq<char>),
> {
    match kind {
        CheckpointType::GitStash => Some(
            (seq!["stash"@, "apply"@, reference], "Failed to apply git stash"@),
        ),
        CheckpointType::GitCommit => Some(
            (seq!["checkout"@, reference, "--"@, "."@], "Failed to checkout commit"@),
        ),
        CheckpointType::FileCopy => None,
    }
}

/// The plan restores a checkpoint of this type and reference.
pub open spec fn restores(plan: RestorePlan, kind: CheckpointType, reference: Seq<char>) -> bool {
    restore_args(kind, reference) == Some((text::strings(plan.args@), plan.on_failure@))
}

/// `r` is how to restore the checkpoint from where the stashes have it now.
pub open spec fn is_plan(
    saved: Seq<Seq<char>>,
    checkpoint: Checkpoint,
    r: Result<RestorePlan, String>,
) -> bool {
    let reference = stash::current_reference(saved, checkpoint);
    match r {
        Ok(plan) => restores(plan, checkpoint.checkpoint_type, reference),
        Err(e) => restore_args(checkpoint.checkpoint_type, reference) is None && e@
            == "GitCheckpoint cannot restore FileCopy checkpoints"@,
    }
}

/// How to restore the checkpoint from where `stashes` has it now.
pub(crate) fn plan_restore(checkpoint: &Checkpoint, stashes: &StashLog) -> (r: Result<
    RestorePlan,
    String,
>)
    ensures
        is_plan(stashes@, *checkpoint, r),
{
    let found = stashes.reference_of(checkpoint);
    let reference = found.as_str();
    match checkpoint.checkpoint_type {
        CheckpointType::GitStash => {
            let args = text::owned(vec!["stash", "apply", reference]);
            assert(text::strings(args@) =~= seq!["stash"@, "apply"@, reference@]);
            Ok(RestorePlan { args, on_failure: "Failed to apply git stash" })
        },
        CheckpointType::GitCommit => {
            let args = text::owned(vec!["checkout", reference, "--", "."]);
            assert(text::strings(args@) =~= seq!["checkout"@, reference@, "--"@, "."@]);
            Ok(RestorePlan { args, on_failure: "Failed to checkout commit" })
        },
        CheckpointType::FileCopy => {
            Err("GitCheckpoint cannot restore FileCopy checkpoints".to_string())
        },
    }
}

/// The checkpoint backend for a git working tree.
#[derive(Debug)]
pub struct GitCheckpoint {
    working_dir: String,
}

impl GitCheckpoint {
    /// The directory of the working tree.
    pub closed spec fn dir(self) -> Seq<char> {
        self.working_dir@
    }

    /// The backend for a directory that is inside a git working tree.
    pub fn new(working_dir: &str, is_repo: bool) -> (r: Result<GitCheckpoint, String>)
        ensures
            r is Ok <==> is_repo,
            r matches Ok(g) ==> g.dir() == working_dir@,
            r matches Err(e) ==> e@ == "Not a git repository: "@ + working_dir@
                + ". Git checkpoints require a git repo."@,
    {
        if !is_repo {
            let mut m = "Not a git repository: ".to_string();
            m.append(working_dir);
            m.append(". Git checkpoints require a git repo.");
            return Err(m);
        }
        Ok(GitCheckpoint { working_dir: working_dir.to_string() })
    }

    /// The backend, or nothing for a directory that is not inside a git working
    /// tree.
    pub fn try_new(working_dir: &str, is_repo: bool) -> (r: Option<GitCheckpoint>)
        ensures
            r is Some <==> is_repo,
            r matches Some(g) ==> g.dir() == working_dir@,
    {
        if is_repo {
            Some(GitCheckpoint { working_dir: working_dir.to_string() })
        } else {
            None
        }
    }

    /// The directory of the working tree.
    pub fn working_dir(&self) -> (r: &str)
        ensures
            r@ == self.dir(),
    {
        self.working_dir.as_str()
    }

    /// Begins to save a checkpoint for the given files, or for everything that was
    /// changed where none are given. The identifier of the checkpoint is new.
    pub fn save(&self, session_id: &str, step_id: &str, files: &Vec<String>) -> (r: SaveRun)
        ensures
            r.phase == SavePhase::Staging,
            types::is_random_uuid(r.checkpoint_id@),
            r.session_id@ == session_id@,
            r.step_id@ == step_id@,
            text::strings(r.files@) == text::strings(files@),
    {
        let copy = files.clone();
        assert(copy@ =~= files@);
        SaveRun {
            phase: SavePhase::Staging,
            checkpoint_id: types::new_id(),
            session_id: session_id.to_string(),
            step_id: step_id.to_string(),
            files: copy,
        }
    }

    /// How to restore a previously saved checkpoint from where `stashes` has it now.
    /// A stash is applied and stays, so that it can be applied again; a commit is
    /// checked out over the tree.
    pub fn restore(&self, checkpoint: &Checkpoint, stashes: &StashLog) -> (r: Result<
        RestorePlan,
        String,
    >)
        ensures
            is_plan(stashes@, *checkpoint, r),
    {
        plan_restore(checkpoint, stashes)
    }

    /// The arguments that discard a checkpoint where `stashes` has it now, if there
    /// is anything to discard. Only a stash takes up room.
    pub fn discard(&self, checkpoint: &Checkpoint, stashes: &StashLog) -> (r: Option<Vec<String>>)
        ensures
            r is Some <==> checkpoint.checkpoint_type == CheckpointType::GitStash,
            r matches Some(args) ==> text::strings(args@) == seq![
                "stash"@,
                "drop"@,
                stash::current_reference(stashes@, *checkpoint),
            ],
    {
        if checkpoint.checkpoint_type == CheckpointType::GitStash {
            let reference = stashes.reference_of(checkpoint);
            let args = text::owned(vec!["stash", "drop", reference.as_str()]);
            assert(text::strings(args@) =~= seq!["stash"@, "drop"@, reference@]);
            Some(args)
        } else {
            None
        }
    }
}

}
