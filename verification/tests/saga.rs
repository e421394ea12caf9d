use carapace::checkpoint::saga::{CompensateFn, SagaCoordinator};
use std::sync::{Arc, Mutex};

fn saga(depth: u32) -> SagaCoordinator<CompensateFn> {
    SagaCoordinator::new(depth)
}

#[test]
fn rollback_executes_in_reverse() {
    let order = Arc::new(Mutex::new(Vec::new()));
    let mut saga = saga(10);

    for i in 1..=3 {
        let order_clone = Arc::clone(&order);
        saga.register(
            format!("step-{i}"),
            i,
            None,
            Some(Box::new(move || {
                order_clone.lock().unwrap().push(i);
                Ok(())
            })),
            format!("Step {i}"),
        );
    }

    let result = saga.rollback(None);
    assert_eq!(result.steps_undone, 3);
    assert_eq!(result.compensations_executed, 3);
    assert_eq!(result.compensations_failed, 0);
    assert_eq!(*order.lock().unwrap(), vec![3, 2, 1]);
}

#[test]
fn partial_rollback() {
    let mut saga = saga(10);

    for i in 1..=5 {
        saga.register(
            format!("step-{i}"),
            i,
            None,
            Some(Box::new(|| Ok(()))),
            format!("Step {i}"),
        );
    }

    let result = saga.rollback(Some(2));
    assert_eq!(result.steps_undone, 2);
    assert_eq!(result.rolled_back_to_step, 3);
    assert_eq!(saga.depth(), 3);
}

#[test]
fn rollback_to_checkpoint() {
    let mut saga = saga(10);

    saga.register("s1".into(), 1, Some("cp-1".into()), Some(Box::new(|| Ok(()))), "S1".into());
    saga.register("s2".into(), 2, Some("cp-2".into()), Some(Box::new(|| Ok(()))), "S2".into());
    saga.register("s3".into(), 3, None, Some(Box::new(|| Ok(()))), "S3".into());
    saga.register("s4".into(), 4, None, Some(Box::new(|| Ok(()))), "S4".into());

    let result = saga.rollback_to_checkpoint("cp-2").unwrap();
    assert_eq!(result.steps_undone, 3); // Undo steps 4, 3, and 2
    assert_eq!(result.rolled_back_to_step, 1);
    assert_eq!(saga.depth(), 1);
}

#[test]
fn rollback_to_unknown_checkpoint_returns_none() {
    let mut saga = saga(10);
    saga.register("s1".into(), 1, Some("cp-1".into()), Some(Box::new(|| Ok(()))), "S1".into());

    assert!(saga.rollback_to_checkpoint("missing").is_none());
    assert_eq!(saga.depth(), 1);
}

#[test]
fn max_depth_pruning() {
    let mut saga = saga(3);

    for i in 1..=5 {
        saga.register(format!("s{i}"), i, None, None, format!("S{i}"));
    }

    assert_eq!(saga.depth(), 3);
    assert_eq!(saga.last_step().unwrap().step_number, 5);
}

#[test]
fn a_depth_of_zero_keeps_nothing() {
    let mut saga = saga(0);
    saga.register("s1".into(), 1, None, Some(Box::new(|| Ok(()))), "S1".into());
    assert_eq!(saga.depth(), 0);
    assert!(saga.last_step().is_none());
    let result = saga.rollback(None);
    assert_eq!(result.steps_undone, 0);
    assert_eq!(result.rolled_back_to_step, 0);
}

#[test]
fn pruned_steps_keep_their_order() {
    let mut saga = saga(2);
    for i in 1..=4 {
        saga.register(format!("s{i}"), i, Some(format!("cp-{i}")), None, format!("S{i}"));
    }
    assert!(saga.rollback_to_checkpoint("cp-2").is_none());
    let result = saga.rollback(Some(1));
    assert_eq!(result.rolled_back_to_step, 3);
    assert_eq!(saga.last_step().unwrap().step_id, "s3");
}

#[test]
fn failing_compensations_are_counted_and_do_not_stop_the_rollback() {
    let mut saga = saga(10);
    saga.register("s1".into(), 1, None, Some(Box::new(|| Ok(()))), "S1".into());
    saga.register("s2".into(), 2, None, Some(Box::new(|| Err("gone".to_string()))), "S2".into());
    saga.register("s3".into(), 3, None, None, "S3".into());

    let result = saga.rollback(None);
    assert_eq!(result.compensations_executed, 1);
    assert_eq!(result.compensations_failed, 1);
    assert_eq!(result.steps_undone, 2);
    assert_eq!(result.rolled_back_to_step, 0);
    assert_eq!(saga.depth(), 0);
}

#[test]
fn rolling_back_more_than_there_is_rolls_back_everything() {
    let mut saga = saga(10);
    saga.register("s1".into(), 7, None, Some(Box::new(|| Ok(()))), "S1".into());
    let result = saga.rollback(Some(99));
    assert_eq!(result.steps_undone, 1);
    assert_eq!(saga.depth(), 0);
}

#[test]
fn rolling_back_nothing_changes_nothing() {
    let mut saga = saga(10);
    saga.register("s1".into(), 7, None, Some(Box::new(|| Ok(()))), "S1".into());
    let result = saga.rollback(Some(0));
    assert_eq!(result.steps_undone, 0);
    assert_eq!(result.rolled_back_to_step, 7);
    assert_eq!(saga.depth(), 1);
}

#[test]
fn two_rollbacks_add_up_to_one() {
    let mut twice = saga(10);
    let mut once = saga(10);
    for i in 1..=4 {
        twice.register(format!("s{i}"), i, None, Some(Box::new(|| Ok(()))), format!("S{i}"));
        once.register(format!("s{i}"), i, None, Some(Box::new(|| Ok(()))), format!("S{i}"));
    }
    let a = twice.rollback(Some(1));
    let b = twice.rollback(Some(2));
    let c = once.rollback(Some(3));
    assert_eq!(a.steps_undone + b.steps_undone, c.steps_undone);
    assert_eq!(b.rolled_back_to_step, c.rolled_back_to_step);
    assert_eq!(twice.depth(), once.depth());
}

#[test]
fn registering_and_rolling_back_gives_the_history_back() {
    let mut saga = saga(10);
    saga.register("s1".into(), 1, None, None, "S1".into());
    saga.register("s2".into(), 2, None, Some(Box::new(|| Ok(()))), "S2".into());
    saga.rollback(Some(1));
    assert_eq!(saga.depth(), 1);
    assert_eq!(saga.last_step().unwrap().step_id, "s1");
}

#[test]
fn the_newest_owner_of_a_checkpoint_counts() {
    let mut saga = saga(10);
    saga.register("s1".into(), 1, Some("cp".into()), None, "S1".into());
    saga.register("s2".into(), 2, Some("cp".into()), None, "S2".into());
    saga.register("s3".into(), 3, None, None, "S3".into());
    let result = saga.rollback_to_checkpoint("cp").unwrap();
    assert_eq!(result.rolled_back_to_step, 1);
    assert_eq!(saga.depth(), 1);
}
