use carapace::checkpoint::git::{interpret, GitCheckpoint, SaveAction, SavePhase};
use carapace::checkpoint::stash::StashLog;
use carapace::checkpoint::undo::RollbackAction;
use carapace::checkpoint::CheckpointManager;
use carapace::config::{CheckpointConfig, CheckpointStrategy};
use carapace::number::Timestamp;
use carapace::types::{ActionType, Checkpoint, CheckpointType, RollbackResult, StepAction};

fn now() -> Timestamp {
    Timestamp::from_parts(1_700_000_000, 0).unwrap()
}

fn action(kind: ActionType, files: Vec<&str>) -> StepAction {
    StepAction {
        action_type: kind,
        tool_name: None,
        arguments: "{}".into(),
        target_files: files.into_iter().map(String::from).collect(),
        description: "edit".into(),
    }
}

fn manager(config: CheckpointConfig, is_repo: bool) -> CheckpointManager {
    CheckpointManager::new("/work", config, is_repo)
}

fn saved(action: SaveAction) -> Checkpoint {
    match action {
        SaveAction::Saved(c) => c,
        _ => panic!("not saved"),
    }
}

fn strings(list: Vec<&str>) -> Vec<String> {
    list.into_iter().map(String::from).collect()
}

#[test]
fn backends_need_a_repository() {
    assert_eq!(
        GitCheckpoint::new("/work", false).unwrap_err(),
        "Not a git repository: /work. Git checkpoints require a git repo."
    );
    assert_eq!(GitCheckpoint::new("/work", true).unwrap().working_dir(), "/work");
    assert!(GitCheckpoint::try_new("/work", false).is_none());
    assert!(GitCheckpoint::try_new("/work", true).is_some());
}

#[test]
fn a_stash_is_recorded() {
    let git = GitCheckpoint::new("/work", true).unwrap();
    let run = git.save("sess1", "step1", &strings(vec!["test.txt"]));
    assert_eq!(run.command(), strings(vec!["add", "--", "test.txt"]));
    assert_eq!(run.phase, SavePhase::Staging);
    let id = run.checkpoint_id.clone();
    let run = match run.next(Ok("".into()), now()) {
        SaveAction::Run(run) => run,
        _ => panic!("expected a run"),
    };
    assert_eq!(run.command(), strings(vec!["stash", "push", "-m", "carapace:sess1:step1"]));
    let cp = saved(run.next(Ok("Saved working directory".into()), now()));
    assert_eq!(cp.id, id);
    assert_eq!(cp.checkpoint_type, CheckpointType::GitStash);
    assert_eq!(cp.reference, "stash@{0}");
    assert_eq!(cp.files_affected, strings(vec!["test.txt"]));
    assert_eq!(cp.session_id, "sess1");
    assert_eq!(cp.step_id, "step1");

    let plan = git.restore(&cp, &StashLog::new()).unwrap();
    assert_eq!(plan.args, strings(vec!["stash", "apply", "stash@{0}"]));
    assert_eq!(plan.on_failure, "Failed to apply git stash");
    assert_eq!(git.discard(&cp, &StashLog::new()).unwrap(), strings(vec!["stash", "drop", "stash@{0}"]));
}

#[test]
fn without_changes_the_commit_is_recorded() {
    for nothing in ["No local changes to save\n", "No stash entries"] {
        let git = GitCheckpoint::new("/work", true).unwrap();
        let run = git.save("s", "t", &vec![]);
        assert_eq!(run.command(), strings(vec!["add", "-A"]));
        let run = match run.next(Ok("".into()), now()) {
            SaveAction::Run(run) => run,
            _ => panic!("expected a run"),
        };
        let run = match run.next(Ok(nothing.into()), now()) {
            SaveAction::Run(run) => run,
            _ => panic!("expected a run"),
        };
        assert_eq!(run.command(), strings(vec!["rev-parse", "HEAD"]));
        let cp = saved(run.next(Ok("  abc123\n".into()), now()));
        assert_eq!(cp.checkpoint_type, CheckpointType::GitCommit);
        assert_eq!(cp.reference, "abc123");
        let plan = git.restore(&cp, &StashLog::new()).unwrap();
        assert_eq!(plan.args, strings(vec!["checkout", "abc123", "--", "."]));
        assert_eq!(plan.on_failure, "Failed to checkout commit");
        assert!(git.discard(&cp, &StashLog::new()).is_none());
    }
}

#[test]
fn a_failing_command_ends_the_save() {
    let git = GitCheckpoint::new("/work", true).unwrap();
    let run = git.save("s", "t", &vec![]);
    match run.next(Err("git add -A failed".into()), now()) {
        SaveAction::Failed(m) => assert_eq!(m, "git add -A failed"),
        _ => panic!("expected a failure"),
    }
}

#[test]
fn file_copies_are_not_restored_by_git() {
    let git = GitCheckpoint::new("/work", true).unwrap();
    let cp = Checkpoint {
        id: "c".into(),
        session_id: "s".into(),
        step_id: "t".into(),
        checkpoint_type: CheckpointType::FileCopy,
        reference: "r".into(),
        files_affected: vec![],
        created_at: now(),
    };
    assert_eq!(
        git.restore(&cp, &StashLog::new()).unwrap_err(),
        "GitCheckpoint cannot restore FileCopy checkpoints"
    );
    assert!(git.discard(&cp, &StashLog::new()).is_none());
}

#[test]
fn git_replies() {
    let args = strings(vec!["stash", "push"]);
    assert_eq!(interpret(&args, Some(0), "out", "warnings"), Ok("out".to_string()));
    assert_eq!(interpret(&args, Some(1), "No local changes to save", ""), Ok("No local changes to save".to_string()));
    assert_eq!(interpret(&args, Some(1), "x", "No local changes"), Ok("x".to_string()));
    assert_eq!(
        interpret(&args, Some(128), "", " fatal: no repo \n"),
        Err("git stash push failed (exit 128): fatal: no repo".to_string())
    );
    assert_eq!(
        interpret(&args, None, "", "killed"),
        Err("git stash push failed (exit -1): killed".to_string())
    );
}

#[test]
fn checkpoints_are_saved_before_risky_actions_only() {
    let m = manager(CheckpointConfig::default(), true);
    for kind in [ActionType::Write, ActionType::Delete, ActionType::Execute] {
        assert!(m.save_if_needed("s", "t", &action(kind, vec!["a"])).unwrap().is_some());
    }
    for kind in [ActionType::Read, ActionType::Search, ActionType::ApiCall] {
        assert!(m.save_if_needed("s", "t", &action(kind, vec!["a"])).unwrap().is_none());
    }
    let run = m.save_if_needed("s", "t", &action(ActionType::Write, vec!["a", "b"])).unwrap().unwrap();
    assert_eq!(run.command(), strings(vec!["add", "--", "a", "b"]));
}

#[test]
fn checkpoints_can_be_disabled() {
    let mut config = CheckpointConfig::default();
    config.enabled = false;
    let m = manager(config, true);
    let a = action(ActionType::Write, vec![]);
    assert!(m.save_if_needed("s", "t", &a).unwrap().is_none());
    assert_eq!(m.save("s", "t", &a).unwrap_err(), "checkpointing is disabled");

    let mut config = CheckpointConfig::default();
    config.auto_save = false;
    let m = manager(config, true);
    assert!(m.save_if_needed("s", "t", &a).unwrap().is_none());
    assert!(m.save("s", "t", &a).is_ok());
}

#[test]
fn without_a_repository_there_is_no_backend() {
    let m = manager(CheckpointConfig::default(), false);
    let a = action(ActionType::Write, vec![]);
    let words = "no git checkpoint backend is available for this working directory";
    assert_eq!(m.save("s", "t", &a).unwrap_err(), words);
    assert_eq!(m.save_if_needed("s", "t", &a).unwrap_err(), words);
    let cp = checkpoint("cp-1");
    assert_eq!(m.restore_checkpoint(&cp, &StashLog::new()).unwrap_err(), words);
}

fn checkpoint(id: &str) -> Checkpoint {
    Checkpoint {
        id: id.into(),
        session_id: "s".into(),
        step_id: "t".into(),
        checkpoint_type: CheckpointType::GitCommit,
        reference: "abc".into(),
        files_affected: vec![],
        created_at: now(),
    }
}

/// Carries a rollback out. `git` says how each command ends. What was asked for comes
/// back with the result.
fn carry_out(
    mut action: RollbackAction,
    git: impl Fn(&str) -> Result<(), String>,
) -> (RollbackResult, Vec<String>) {
    let mut asked = vec![];
    loop {
        match action {
            RollbackAction::Run(run) => {
                let reply = match run.pending() {
                    Ok(plan) => {
                        let command = plan.args.join(" ");
                        let reply = git(&command);
                        asked.push(command);
                        reply
                    }
                    Err(message) => Err(message.clone()),
                };
                action = run.next(reply);
            }
            RollbackAction::Done(result) => return (result, asked),
        }
    }
}

fn stash(id: &str) -> Checkpoint {
    Checkpoint {
        checkpoint_type: CheckpointType::GitStash,
        reference: "stash@{0}".into(),
        ..checkpoint(id)
    }
}

#[test]
fn compensations_need_a_checkpoint_and_a_backend() {
    let none = StashLog::new();
    let mut m = manager(CheckpointConfig::default(), true);
    let cp = checkpoint("cp-1");
    m.register_step("a".into(), 1, Some(&cp), "A".into());
    m.register_step("b".into(), 2, None, "B".into());
    assert_eq!(m.depth(), 2);
    let (r, asked) = carry_out(m.rollback(None, &none), |_| Ok(()));
    assert_eq!(asked, vec!["checkout abc -- ."]);
    assert_eq!(r.compensations_executed, 1);
    assert_eq!(r.steps_undone, 1);
    assert_eq!(m.depth(), 0);

    let mut m = manager(CheckpointConfig::default(), false);
    m.register_step("a".into(), 1, Some(&cp), "A".into());
    let (r, asked) = carry_out(m.rollback_to_checkpoint("cp-1", &none).unwrap(), |_| Ok(()));
    assert_eq!(asked, Vec::<String>::new());
    assert_eq!(r.steps_undone, 0);
    assert_eq!(m.depth(), 0);
    assert!(m.rollback_to_checkpoint("cp-1", &none).is_none());
    assert!(manager(CheckpointConfig::default(), true).restore_checkpoint(&cp, &none).is_ok());
}

#[test]
fn the_backend_goes_by_the_strategy() {
    for strategy in [CheckpointStrategy::FileCopy, CheckpointStrategy::Disabled] {
        let mut config = CheckpointConfig::default();
        config.strategy = strategy;
        let m = manager(config, true);
        assert_eq!(
            m.save("s", "t", &action(ActionType::Write, vec![])).unwrap_err(),
            "no git checkpoint backend is available for this working directory"
        );
    }
}

#[test]
fn checkpoints_are_restored_newest_first_from_their_own_stashes() {
    let mut m = manager(CheckpointConfig::default(), true);
    let mut log = StashLog::new();
    for i in 1..=3u32 {
        let cp = stash(&format!("cp-{i}"));
        log.saved(&cp);
        m.register_step(format!("s{i}"), i, Some(&cp), format!("S{i}"));
    }
    let (r, asked) = carry_out(m.rollback(Some(2), &log), |_| Ok(()));
    assert_eq!(asked, vec!["stash apply stash@{0}", "stash apply stash@{1}"]);
    assert_eq!(r.rolled_back_to_step, 1);
    assert_eq!(r.steps_undone, 2);
    assert_eq!(m.depth(), 1);

    // A stash that was saved since moves the one that is left further down.
    log.saved(&stash("cp-4"));
    let (r, asked) = carry_out(m.rollback(Some(7), &log), |_| Ok(()));
    assert_eq!(asked, vec!["stash apply stash@{3}"]);
    assert_eq!(r.rolled_back_to_step, 0);
    assert_eq!(m.depth(), 0);
}

#[test]
fn a_failing_restore_does_not_stop_a_rollback() {
    let mut m = manager(CheckpointConfig::default(), true);
    let mut log = StashLog::new();
    for i in 1..=3u32 {
        let cp = stash(&format!("cp-{i}"));
        log.saved(&cp);
        m.register_step(format!("s{i}"), i, Some(&cp), format!("S{i}"));
    }
    let copy = Checkpoint { checkpoint_type: CheckpointType::FileCopy, ..checkpoint("cp-f") };
    m.register_step("s4".into(), 4, Some(&copy), "S4".into());
    let (r, asked) = carry_out(m.rollback(None, &log), |command| {
        if command.ends_with("stash@{1}") {
            Err("conflict".into())
        } else {
            Ok(())
        }
    });
    let wanted = vec!["stash apply stash@{0}", "stash apply stash@{1}", "stash apply stash@{2}"];
    assert_eq!(asked, wanted);
    assert_eq!(r.compensations_executed, 2);
    assert_eq!(r.compensations_failed, 2);
    assert_eq!(r.steps_undone, 4);
    assert_eq!(r.rolled_back_to_step, 0);
}

#[test]
fn dropped_steps_are_not_restored() {
    let mut config = CheckpointConfig::default();
    config.max_rollback_depth = 1;
    let mut m = manager(config, true);
    let mut log = StashLog::new();
    for i in 1..=2u32 {
        let cp = stash(&format!("cp-{i}"));
        log.saved(&cp);
        m.register_step(format!("s{i}"), i, Some(&cp), format!("S{i}"));
    }
    assert!(m.rollback_to_checkpoint("cp-1", &log).is_none());
    assert_eq!(m.depth(), 1);
    let (r, asked) = carry_out(m.rollback_to_checkpoint("cp-2", &log).unwrap(), |_| Ok(()));
    assert_eq!(asked, vec!["stash apply stash@{0}"]);
    assert_eq!(r.rolled_back_to_step, 0);
}

#[test]
fn an_earlier_stash_is_restored_and_discarded_where_it_is_now() {
    let git = GitCheckpoint::new("/work", true).unwrap();
    let mut log = StashLog::new();
    let (cp1, cp2) = (stash("cp-1"), stash("cp-2"));
    log.saved(&cp1);
    assert_eq!(git.restore(&cp1, &log).unwrap().args, strings(vec!["stash", "apply", "stash@{0}"]));
    log.saved(&cp2);
    assert_eq!(git.restore(&cp1, &log).unwrap().args, strings(vec!["stash", "apply", "stash@{1}"]));
    assert_eq!(git.restore(&cp2, &log).unwrap().args, strings(vec!["stash", "apply", "stash@{0}"]));
    let m = manager(CheckpointConfig::default(), true);
    let plan = m.restore_checkpoint(&cp1, &log).unwrap();
    assert_eq!(plan.args, strings(vec!["stash", "apply", "stash@{1}"]));
    assert_eq!(git.discard(&cp1, &log).unwrap(), strings(vec!["stash", "drop", "stash@{1}"]));
}

#[test]
fn stashes_move_up_when_one_is_dropped() {
    let steps: Vec<Checkpoint> = (1..=3).map(|i| stash(&format!("cp-{i}"))).collect();
    let mut log = StashLog::new();
    for cp in &steps {
        log.saved(cp);
    }
    log.dropped(&steps[1]);
    assert_eq!(log.reference_of(&steps[0]), "stash@{1}");
    assert_eq!(log.reference_of(&steps[2]), "stash@{0}");
    log.dropped(&checkpoint("cp-3"));
    log.dropped(&stash("cp-9"));
    assert_eq!(log.reference_of(&steps[0]), "stash@{1}");
    log.dropped(&steps[2]);
    assert_eq!(log.reference_of(&steps[0]), "stash@{0}");
}

#[test]
fn the_configured_depth_is_kept() {
    let mut config = CheckpointConfig::default();
    config.max_rollback_depth = 2;
    let mut m = manager(config, true);
    for i in 1..=5 {
        m.register_step(format!("s{i}"), i, None, format!("S{i}"));
    }
    assert_eq!(m.depth(), 2);
    let (r, _) = carry_out(m.rollback(Some(1), &StashLog::new()), |_| Ok(()));
    assert_eq!(r.rolled_back_to_step, 4);
}

#[test]
fn identifiers_are_random_uuids() {
    let a = carapace::types::new_id();
    let b = carapace::types::new_id();
    assert_ne!(a, b);
    for id in [a, b] {
        let parsed = uuid::Uuid::parse_str(&id).unwrap();
        assert_eq!(parsed.get_version_num(), 4);
        assert_eq!(parsed.to_string(), id);
        assert_eq!(id.len(), 36);
        let at = id.as_bytes();
        assert_eq!(at[14], b'4');
        assert!(b"89ab".contains(&at[19]));
    }
}

#[test]
fn older_stashes_move_down_the_list() {
    let stash = |id: &str, kind: CheckpointType| Checkpoint {
        id: id.into(),
        session_id: "s".into(),
        step_id: "t".into(),
        checkpoint_type: kind,
        reference: if kind == CheckpointType::GitStash { "stash@{0}".into() } else { "abc".into() },
        files_affected: vec![],
        created_at: Timestamp::from_parts(0, 0).unwrap(),
    };
    let steps: Vec<Checkpoint> =
        (1..=3).map(|i| stash(&format!("step-{i}"), CheckpointType::GitStash)).collect();
    let commit = stash("step-c", CheckpointType::GitCommit);
    let mut log = StashLog::new();
    assert_eq!(log.reference_of(&steps[0]), "stash@{0}");
    log.saved(&steps[0]);
    log.saved(&steps[1]);
    log.saved(&commit);
    log.saved(&steps[2]);
    assert_eq!(log.reference_of(&steps[0]), "stash@{2}");
    assert_eq!(log.reference_of(&steps[1]), "stash@{1}");
    assert_eq!(log.reference_of(&steps[2]), "stash@{0}");
    assert_eq!(log.reference_of(&commit), "abc");
}
